//! What holds of the facts of Dart files.

use crate::extract::{reference_at, reportable, Ctx};
use crate::extract::dart::{
    any_show_in, bases_under, bindings_at, bindings_in, constants_in, declared_bases,
    definitions_in, imports_at, imports_in, imports_of, inherits_at, inherits_in, introduced,
    is_show, is_signature, is_variable_list, leaves_at, leaves_in, libraries_in, member_symbols,
    members_in, more_locals_in, name_of_type, not_read, on_types_in, own_type_refs, parameters_of,
    params_in, reads_at, reads_in, reads_in_document_order, reads_of_nodes, references_of,
    returned_refs, shown_in, shown_names_in, signed_in, specified, specified_in, symbols_at,
    symbols_in, type_names_at, type_names_in, type_refs_at, type_refs_in, type_symbols, typed_refs,
    uri_of, variable_lists_in, variables_in, wrapped_in, writes_at, writes_in, written,
};
use crate::graph::types::{
    RefRole, ReferenceView, Scope, SymbolKind, SymbolView, TypeRefContext, Visibility,
};
use crate::items::{in_order_all, in_order_each};
use crate::parse::CaptureView;
use crate::symbol::DescriptorView;
use crate::syntax::{field_is_child, first_of_kind_is_child, group_child_bounds, Syntax};
use super::{all_fit, all_nested, belongs, calls_marked_fit, identifiers_apart, stands_in};
use vstd::prelude::*;

verus! {

broadcast use group_child_bounds;

// ── Definitions ──────────────────────────────────────────────────────────────

/// Whether a symbol is one that a Dart file can define under the steps `prefix`.
pub open spec fn is_defined(c: Ctx, prefix: Seq<DescriptorView>, s: SymbolView) -> bool {
    &&& belongs(c, prefix, s)
    &&& s.visibility == Visibility::Public || s.visibility == Visibility::Internal
    &&& stands_in(prefix, s)
}

/// Whether all symbols are.
pub open spec fn all_defined(
    c: Ctx,
    prefix: Seq<DescriptorView>,
    symbols: Seq<SymbolView>,
) -> bool {
    forall|k: int| 0 <= k < symbols.len() ==> is_defined(c, prefix, #[trigger] symbols[k])
}

proof fn variables_in_defined(c: Ctx, prefix: Seq<DescriptorView>, owner: int, lo: int, hi: int)
    ensures
        all_defined(c, prefix, variables_in(c, prefix, owner, lo, hi)),
    decreases hi - lo,
{
    if lo < hi {
        variables_in_defined(c, prefix, owner, c.tree.next(lo, hi), hi);
    }
}

proof fn variable_lists_in_defined(
    c: Ctx,
    prefix: Seq<DescriptorView>,
    owner: int,
    lo: int,
    hi: int,
)
    ensures
        all_defined(c, prefix, variable_lists_in(c, prefix, owner, lo, hi)),
    decreases hi - lo,
{
    if lo < hi {
        if is_variable_list(c.tree, lo) {
            variables_in_defined(c, prefix, owner, lo + 1, c.tree.after(lo));
        }
        variable_lists_in_defined(c, prefix, owner, c.tree.next(lo, hi), hi);
    }
}

proof fn signed_in_defined(c: Ctx, prefix: Seq<DescriptorView>, lo: int, hi: int)
    ensures
        all_defined(c, prefix, signed_in(c, prefix, lo, hi)),
    decreases hi - lo,
{
    if lo < hi {
        signed_in_defined(c, prefix, c.tree.next(lo, hi), hi);
    }
}

proof fn member_symbols_defined(c: Ctx, prefix: Seq<DescriptorView>, i: int)
    ensures
        all_defined(c, prefix, member_symbols(c, prefix, i)),
{
    let t = c.tree;
    if t.kind(i) != "method_declaration"@ && t.kind(i) == "declaration"@ {
        signed_in_defined(c, prefix, i + 1, t.after(i));
        variable_lists_in_defined(c, prefix, i, i + 1, t.after(i));
    }
}

proof fn wrapped_in_defined(c: Ctx, prefix: Seq<DescriptorView>, lo: int, hi: int)
    ensures
        all_defined(c, prefix, wrapped_in(c, prefix, lo, hi)),
    decreases hi - lo,
{
    if lo < hi {
        member_symbols_defined(c, prefix, lo);
        wrapped_in_defined(c, prefix, c.tree.next(lo, hi), hi);
    }
}

proof fn members_in_defined(c: Ctx, prefix: Seq<DescriptorView>, lo: int, hi: int)
    ensures
        all_defined(c, prefix, members_in(c, prefix, lo, hi)),
    decreases hi - lo,
{
    if lo < hi {
        if c.tree.kind(lo) == "class_member"@ {
            wrapped_in_defined(c, prefix, lo + 1, c.tree.after(lo));
        }
        members_in_defined(c, prefix, c.tree.next(lo, hi), hi);
    }
}

proof fn constants_in_defined(c: Ctx, prefix: Seq<DescriptorView>, lo: int, hi: int)
    ensures
        all_defined(c, prefix, constants_in(c, prefix, lo, hi)),
    decreases hi - lo,
{
    if lo < hi {
        constants_in_defined(c, prefix, c.tree.next(lo, hi), hi);
    }
}

proof fn type_symbols_defined(c: Ctx, prefix: Seq<DescriptorView>, kind: SymbolKind, i: int)
    ensures
        all_defined(c, prefix, type_symbols(c, prefix, kind, i)),
{
    let t = c.tree;
    if let Some(name) = name_of_type(t, i) {
        if let Some(body) = t.child(i, "body"@) {
            let inner = prefix + seq![DescriptorView::Type(name)];
            constants_in_defined(c, inner, body + 1, t.after(body));
            members_in_defined(c, inner, body + 1, t.after(body));
        }
    }
}

proof fn symbols_at_defined(c: Ctx, prefix: Seq<DescriptorView>, i: int)
    ensures
        all_defined(c, prefix, symbols_at(c, prefix, i)),
{
    let kind = c.tree.kind(i);
    if kind == "class_declaration"@ {
        type_symbols_defined(c, prefix, SymbolKind::Class, i);
    } else if kind == "mixin_declaration"@ {
        type_symbols_defined(c, prefix, SymbolKind::Trait, i);
    } else if kind == "enum_declaration"@ {
        type_symbols_defined(c, prefix, SymbolKind::Enum, i);
    } else if kind == "extension_declaration"@ {
        type_symbols_defined(c, prefix, SymbolKind::Class, i);
    } else if kind != "type_alias"@ {
        if !(kind == "function_declaration"@ || kind == "external_function_declaration"@) {
            if kind == "top_level_variable_declaration"@
                || kind == "external_variable_declaration"@ {
                variable_lists_in_defined(c, prefix, i, i + 1, c.tree.after(i));
            }
        }
    }
}

/// Each definition of a Dart file names the language and the file, extends the
/// steps `prefix` without further namespaces, has an identity that ends with
/// its name and is public or internal.
pub proof fn definitions_belong(c: Ctx, prefix: Seq<DescriptorView>, lo: int, hi: int)
    ensures
        all_defined(c, prefix, symbols_in(c, prefix, lo, hi)),
    decreases hi - lo,
{
    if lo < hi {
        symbols_at_defined(c, prefix, lo);
        definitions_belong(c, prefix, c.tree.next(lo, hi), hi);
    }
}

// ── References ───────────────────────────────────────────────────────────────

proof fn type_names_at_fit(t: Syntax, file: Seq<char>, role: RefRole, i: int)
    requires
        role == RefRole::IsImplementation,
    ensures
        all_fit(file, type_names_at(t, file, role, i)),
    decreases t.left(i), 0nat,
{
    if t.has(i) && t.kind(i) != "type_identifier"@ {
        type_names_in_fit(t, file, role, i + 1, t.after(i));
    }
}

proof fn type_names_in_fit(t: Syntax, file: Seq<char>, role: RefRole, lo: int, hi: int)
    requires
        role == RefRole::IsImplementation,
    ensures
        all_fit(file, type_names_in(t, file, role, lo, hi)),
    decreases t.left(lo), 1nat,
{
    if lo < hi && t.has(lo) {
        type_names_at_fit(t, file, role, lo);
        type_names_in_fit(t, file, role, t.next(lo, hi), hi);
    }
}

proof fn bases_under_fit(t: Syntax, file: Seq<char>, field: Seq<char>, i: int)
    ensures
        all_fit(file, bases_under(t, file, field, i)),
{
    if let Some(types) = t.child(i, field) {
        type_names_at_fit(t, file, RefRole::IsImplementation, types);
    }
}

proof fn on_types_in_fit(t: Syntax, file: Seq<char>, lo: int, hi: int, seen: bool)
    ensures
        all_fit(file, on_types_in(t, file, lo, hi, seen)),
    decreases hi - lo,
{
    if lo < hi {
        if t.kind(lo) == "on"@ {
            on_types_in_fit(t, file, t.next(lo, hi), hi, true);
        } else if t.kind(lo) == "type"@ && seen {
            type_names_at_fit(t, file, RefRole::IsImplementation, lo);
            on_types_in_fit(t, file, t.next(lo, hi), hi, seen);
        } else if t.kind(lo) != "class_body"@ {
            on_types_in_fit(t, file, t.next(lo, hi), hi, seen);
        }
    }
}

proof fn declared_bases_fit(t: Syntax, file: Seq<char>, i: int)
    ensures
        all_fit(file, declared_bases(t, file, i)),
{
    if t.kind(i) == "class_declaration"@ {
        bases_under_fit(t, file, "superclass"@, i);
        bases_under_fit(t, file, "interfaces"@, i);
    } else if t.kind(i) == "mixin_declaration"@ {
        on_types_in_fit(t, file, i + 1, t.after(i), false);
        bases_under_fit(t, file, "interfaces"@, i);
    }
}

proof fn inherits_at_fit(t: Syntax, file: Seq<char>, i: int)
    ensures
        all_fit(file, inherits_at(t, file, i)),
    decreases t.left(i), 0nat,
{
    if t.has(i) {
        declared_bases_fit(t, file, i);
        inherits_in_fit(t, file, i + 1, t.after(i));
    }
}

proof fn inherits_in_fit(t: Syntax, file: Seq<char>, lo: int, hi: int)
    ensures
        all_fit(file, inherits_in(t, file, lo, hi)),
    decreases t.left(lo), 1nat,
{
    if lo < hi && t.has(lo) {
        inherits_at_fit(t, file, lo);
        inherits_in_fit(t, file, t.next(lo, hi), hi);
    }
}

proof fn shown_names_in_fit(
    t: Syntax,
    file: Seq<char>,
    module: Seq<char>,
    from_path: Seq<char>,
    lo: int,
    hi: int,
)
    ensures
        all_fit(file, shown_names_in(t, file, module, from_path, lo, hi)),
    decreases hi - lo,
{
    if lo < hi {
        shown_names_in_fit(t, file, module, from_path, t.next(lo, hi), hi);
    }
}

proof fn shown_in_fit(
    t: Syntax,
    file: Seq<char>,
    module: Seq<char>,
    from_path: Seq<char>,
    lo: int,
    hi: int,
)
    ensures
        all_fit(file, shown_in(t, file, module, from_path, lo, hi)),
    decreases hi - lo,
{
    if lo < hi {
        if is_show(t, lo) {
            shown_names_in_fit(t, file, module, from_path, lo + 1, t.after(lo));
        }
        shown_in_fit(t, file, module, from_path, t.next(lo, hi), hi);
    }
}

proof fn specified_fit(t: Syntax, file: Seq<char>, module: Seq<char>, i: int)
    ensures
        all_fit(file, specified(t, file, module, i)),
{
    if let Some(from_path) = uri_of(t, i) {
        if any_show_in(t, i + 1, t.after(i)) {
            shown_in_fit(t, file, module, from_path, i + 1, t.after(i));
        }
    }
}

proof fn specified_in_fit(t: Syntax, file: Seq<char>, module: Seq<char>, lo: int, hi: int)
    ensures
        all_fit(file, specified_in(t, file, module, lo, hi)),
    decreases hi - lo,
{
    if lo < hi {
        if t.kind(lo) == "import_specification"@ {
            specified_fit(t, file, module, lo);
        }
        specified_in_fit(t, file, module, t.next(lo, hi), hi);
    }
}

proof fn libraries_in_fit(t: Syntax, file: Seq<char>, module: Seq<char>, lo: int, hi: int)
    ensures
        all_fit(file, libraries_in(t, file, module, lo, hi)),
    decreases hi - lo,
{
    if lo < hi {
        if t.kind(lo) == "library_import"@ {
            specified_in_fit(t, file, module, lo + 1, t.after(lo));
        }
        libraries_in_fit(t, file, module, t.next(lo, hi), hi);
    }
}

proof fn imports_of_fit(t: Syntax, file: Seq<char>, module: Seq<char>, i: int)
    ensures
        all_fit(file, imports_of(t, file, module, i)),
{
    if t.kind(i) == "import_or_export"@ {
        libraries_in_fit(t, file, module, i + 1, t.after(i));
    }
}

proof fn imports_at_fit(t: Syntax, file: Seq<char>, module: Seq<char>, i: int)
    ensures
        all_fit(file, imports_at(t, file, module, i)),
    decreases t.left(i), 0nat,
{
    if t.has(i) {
        if t.kind(i) == "import_or_export"@ {
            imports_of_fit(t, file, module, i);
        } else {
            imports_of_fit(t, file, module, i);
            imports_in_fit(t, file, module, i + 1, t.after(i));
        }
    }
}

proof fn imports_in_fit(t: Syntax, file: Seq<char>, module: Seq<char>, lo: int, hi: int)
    ensures
        all_fit(file, imports_in(t, file, module, lo, hi)),
    decreases t.left(lo), 1nat,
{
    if lo < hi && t.has(lo) {
        imports_at_fit(t, file, module, lo);
        imports_in_fit(t, file, module, t.next(lo, hi), hi);
    }
}

proof fn leaves_at_fit(t: Syntax, file: Seq<char>, ctx: TypeRefContext, i: int)
    ensures
        all_fit(file, leaves_at(t, file, ctx, i)),
    decreases t.left(i), 0nat,
{
    let kind = t.kind(i);
    if !(!t.has(i) || kind == "void_type"@) {
        if kind != "type_identifier"@ && kind == "type"@ {
            leaves_in_fit(t, file, ctx, i + 1, t.after(i));
        }
    }
}

proof fn leaves_in_fit(t: Syntax, file: Seq<char>, ctx: TypeRefContext, lo: int, hi: int)
    ensures
        all_fit(file, leaves_in(t, file, ctx, lo, hi)),
    decreases t.left(lo), 1nat,
{
    if lo < hi && t.has(lo) {
        if t.named(lo) {
            leaves_at_fit(t, file, ctx, lo);
        }
        leaves_in_fit(t, file, ctx, t.next(lo, hi), hi);
    }
}

proof fn returned_refs_fit(t: Syntax, file: Seq<char>, i: int)
    ensures
        all_fit(file, returned_refs(t, file, i)),
{
    if let Some(ty) = t.child(i, "return_type"@) {
        leaves_at_fit(t, file, TypeRefContext::ReturnType, ty);
    }
}

proof fn typed_refs_fit(t: Syntax, file: Seq<char>, ctx: TypeRefContext, i: int)
    ensures
        all_fit(file, typed_refs(t, file, ctx, i)),
{
    if let Some(ty) = t.child_of_kind(i, "type"@) {
        leaves_at_fit(t, file, ctx, ty);
    }
}

proof fn own_type_refs_fit(t: Syntax, file: Seq<char>, i: int)
    ensures
        all_fit(file, own_type_refs(t, file, i)),
{
    let kind = t.kind(i);
    if is_signature(t, i) {
        returned_refs_fit(t, file, i);
    } else if kind == "formal_parameter"@ {
        typed_refs_fit(t, file, TypeRefContext::ParameterType, i);
    } else if kind == "top_level_variable_declaration"@ || kind == "declaration"@ {
        typed_refs_fit(t, file, TypeRefContext::Field, i);
    }
}

proof fn type_refs_at_fit(t: Syntax, file: Seq<char>, i: int)
    ensures
        all_fit(file, type_refs_at(t, file, i)),
    decreases t.left(i), 0nat,
{
    if t.has(i) {
        own_type_refs_fit(t, file, i);
        type_refs_in_fit(t, file, i + 1, t.after(i));
    }
}

proof fn type_refs_in_fit(t: Syntax, file: Seq<char>, lo: int, hi: int)
    ensures
        all_fit(file, type_refs_in(t, file, lo, hi)),
    decreases t.left(lo), 1nat,
{
    if lo < hi && t.has(lo) {
        type_refs_at_fit(t, file, lo);
        type_refs_in_fit(t, file, t.next(lo, hi), hi);
    }
}

proof fn reads_at_fit(t: Syntax, file: Seq<char>, i: int)
    ensures
        all_fit(file, reads_at(t, file, i)),
    decreases t.left(i), 0nat,
{
    if t.has(i) && t.kind(i) != "identifier"@ {
        reads_in_fit(t, file, i + 1, t.after(i));
    }
}

proof fn reads_in_fit(t: Syntax, file: Seq<char>, lo: int, hi: int)
    ensures
        all_fit(file, reads_in(t, file, lo, hi)),
    decreases t.left(lo), 1nat,
{
    if lo < hi && t.has(lo) {
        reads_at_fit(t, file, lo);
        reads_in_fit(t, file, t.next(lo, hi), hi);
    }
}

proof fn writes_at_fit(t: Syntax, file: Seq<char>, i: int)
    ensures
        all_fit(file, writes_at(t, file, i)),
    decreases t.left(i), 0nat,
{
    if t.has(i) {
        writes_in_fit(t, file, i + 1, t.after(i));
    }
}

proof fn writes_in_fit(t: Syntax, file: Seq<char>, lo: int, hi: int)
    ensures
        all_fit(file, writes_in(t, file, lo, hi)),
    decreases t.left(lo), 1nat,
{
    if lo < hi && t.has(lo) {
        writes_at_fit(t, file, lo);
        writes_in_fit(t, file, t.next(lo, hi), hi);
    }
}

/// Each reference of a Dart file stands in the file. A call, a read or a write has a
/// name that is long enough, a call on the object itself has no qualifier, and only
/// a type reference says where its type stands.
pub proof fn references_fit(
    t: Syntax,
    file: Seq<char>,
    module: Seq<char>,
    found: Seq<Seq<CaptureView>>,
    on_self: Seq<Seq<CaptureView>>,
)
    ensures
        all_fit(file, references_of(t, file, module, found, on_self)),
{
    calls_marked_fit(t.source, file, found, on_self);
    inherits_at_fit(t, file, 0);
    imports_at_fit(t, file, module, 0);
    type_refs_at_fit(t, file, 0);
    reads_at_fit(t, file, 0);
    writes_at_fit(t, file, 0);
}

// ── Local names ──────────────────────────────────────────────────────────────

proof fn more_locals_in_nested(t: Syntax, scopes: Seq<Scope>, owner: int, lo: int, hi: int)
    ensures
        all_nested(scopes, more_locals_in(t, scopes, owner, lo, hi)),
    decreases hi - lo,
{
    if lo < hi {
        more_locals_in_nested(t, scopes, owner, t.next(lo, hi), hi);
    }
}

proof fn definitions_in_nested(t: Syntax, scopes: Seq<Scope>, lo: int, hi: int)
    ensures
        all_nested(scopes, definitions_in(t, scopes, lo, hi)),
    decreases hi - lo,
{
    if lo < hi {
        if t.kind(lo) == "initialized_variable_definition"@ {
            more_locals_in_nested(t, scopes, lo, lo + 1, t.after(lo));
        }
        definitions_in_nested(t, scopes, t.next(lo, hi), hi);
    }
}

proof fn params_in_nested(t: Syntax, scopes: Seq<Scope>, lo: int, hi: int)
    ensures
        all_nested(scopes, params_in(t, scopes, lo, hi)),
    decreases hi - lo,
{
    if lo < hi {
        params_in_nested(t, scopes, t.next(lo, hi), hi);
    }
}

proof fn introduced_nested(t: Syntax, scopes: Seq<Scope>, i: int)
    ensures
        all_nested(scopes, introduced(t, scopes, i)),
{
    if t.kind(i) == "function_declaration"@ || t.kind(i) == "method_declaration"@ {
        if let Some(params) = parameters_of(t, i) {
            params_in_nested(t, scopes, params + 1, t.after(params));
        }
    } else if t.kind(i) == "local_variable_declaration"@ {
        definitions_in_nested(t, scopes, i + 1, t.after(i));
    }
}

/// Each local name of a Dart file is bound in the innermost scope at its place. One
/// that is no parameter never stands in that of the file as a whole.
pub proof fn locals_are_nested(t: Syntax, scopes: Seq<Scope>, i: int)
    ensures
        all_nested(scopes, bindings_at(t, scopes, i)),
    decreases t.left(i), 0nat,
{
    if t.has(i) {
        introduced_nested(t, scopes, i);
        bindings_in_nested(t, scopes, i + 1, t.after(i));
    }
}

proof fn bindings_in_nested(t: Syntax, scopes: Seq<Scope>, lo: int, hi: int)
    ensures
        all_nested(scopes, bindings_in(t, scopes, lo, hi)),
    decreases t.left(lo), 1nat,
{
    if lo < hi && t.has(lo) {
        locals_are_nested(t, scopes, lo);
        bindings_in_nested(t, scopes, t.next(lo, hi), hi);
    }
}

// ── Reads ────────────────────────────────────────────────────────────────────

/// Whether node `i` is an identifier that is long enough and stands where it is
/// read.
pub open spec fn is_read(t: Syntax, i: int) -> bool {
    t.kind(i) == "identifier"@ && reportable(t.text(i)) && !not_read(t, i)
}

/// Each identifier of a Dart file that is read is reported.
pub proof fn reads_are_complete(t: Syntax, file: Seq<char>, i: int)
    requires
        t.nested(),
        t.has(0),
        identifiers_apart(t),
        0 <= i < t.after(0),
        is_read(t, i),
    ensures
        reads_at(t, file, 0).contains(reference_at(t, file, i, t.text(i), RefRole::Read)),
{
    let items = reads_of_nodes(t, file);
    reads_in_document_order(t, file, 0);
    assert(items(i)[0] == reference_at(t, file, i, t.text(i), RefRole::Read));
    in_order_each(items, 0, t.after(0), i, 0);
}

/// Each read that is reported of a Dart file is an identifier that is read.
pub proof fn reads_are_sound(t: Syntax, file: Seq<char>, k: int)
    requires
        t.nested(),
        t.has(0),
        identifiers_apart(t),
        0 <= k < reads_at(t, file, 0).len(),
    ensures
        exists|i: int|
            0 <= i < t.after(0) && #[trigger] is_read(t, i) && reads_at(t, file, 0)[k]
                == reference_at(t, file, i, t.text(i), RefRole::Read),
{
    let items = reads_of_nodes(t, file);
    let is_one = |r: ReferenceView|
        exists|i: int|
            0 <= i < t.after(0) && #[trigger] is_read(t, i) && r == reference_at(
                t,
                file,
                i,
                t.text(i),
                RefRole::Read,
            );
    reads_in_document_order(t, file, 0);
    assert forall|i: int, k: int| 0 <= i < t.after(0) && 0 <= k < items(i).len() implies is_one(
        #[trigger] items(i)[k],
    ) by {
        assert(is_read(t, i));
    }
    in_order_all(items, 0, t.after(0), is_one);
    assert(is_one(reads_at(t, file, 0)[k]));
}

// ── Names that are reported once ─────────────────────────────────────────────

/// The name that a call in a Dart file calls is not read as well.
pub proof fn callee_is_not_read(t: Syntax, i: int)
    requires
        t.linked(),
        t.has(i),
        t.kind(i) == "call_expression"@,
    ensures
        t.child(i, "function"@) matches Some(callee) ==> not_read(t, callee),
{
    reveal_strlit("call_expression");
    reveal_strlit("assignable_expression");
    reveal_strlit("assignment_expression");
    reveal_strlit("member_expression");
    reveal_strlit("null_aware_member_expression");
    reveal_strlit("cascade_member_expression");
    reveal_strlit("cascade_null_aware_member_expression");
    reveal_strlit("function_signature");
    reveal_strlit("getter_signature");
    reveal_strlit("setter_signature");
    reveal_strlit("constructor_signature");
    reveal_strlit("constant_constructor_signature");
    reveal_strlit("factory_constructor_signature");
    reveal_strlit("redirecting_factory_constructor_signature");
    reveal_strlit("class_declaration");
    reveal_strlit("mixin_declaration");
    reveal_strlit("enum_declaration");
    reveal_strlit("extension_declaration");
    reveal_strlit("extension_type_declaration");
    reveal_strlit("enum_constant");
    reveal_strlit("typed_identifier");
    reveal_strlit("initialized_identifier");
    reveal_strlit("static_final_declaration");
    reveal_strlit("initialized_variable_definition");
    reveal_strlit("variable_pattern");
    reveal_strlit("for_statement");
    reveal_strlit("for_element");
    reveal_strlit("formal_parameter");
    reveal_strlit("constructor_param");
    reveal_strlit("super_formal_parameter");
    reveal_strlit("identifier_list");
    reveal_strlit("mixin_application_class");
    reveal_strlit("catch_clause");
    reveal_strlit("import_specification");
    reveal_strlit("combinator");
    assert("call_expression"@[0] != "identifier_list"@[0]);
    field_is_child(t, i, "function"@);
}

/// The name that an assignment in a Dart file writes is not read as well.
pub proof fn target_is_not_read(t: Syntax, i: int, lhs: int)
    requires
        t.linked(),
        t.has(i),
        t.kind(i) == "assignment_expression"@,
        t.child(i, "left"@) == Some(lhs),
    ensures
        written(t, lhs) matches Some(target) ==> not_read(t, target),
{
    reveal_strlit("call_expression");
    reveal_strlit("assignable_expression");
    reveal_strlit("assignment_expression");
    reveal_strlit("member_expression");
    reveal_strlit("null_aware_member_expression");
    reveal_strlit("cascade_member_expression");
    reveal_strlit("cascade_null_aware_member_expression");
    reveal_strlit("function_signature");
    reveal_strlit("getter_signature");
    reveal_strlit("setter_signature");
    reveal_strlit("constructor_signature");
    reveal_strlit("constant_constructor_signature");
    reveal_strlit("factory_constructor_signature");
    reveal_strlit("redirecting_factory_constructor_signature");
    reveal_strlit("class_declaration");
    reveal_strlit("mixin_declaration");
    reveal_strlit("enum_declaration");
    reveal_strlit("extension_declaration");
    reveal_strlit("extension_type_declaration");
    reveal_strlit("enum_constant");
    reveal_strlit("typed_identifier");
    reveal_strlit("initialized_identifier");
    reveal_strlit("static_final_declaration");
    reveal_strlit("initialized_variable_definition");
    reveal_strlit("variable_pattern");
    reveal_strlit("for_statement");
    reveal_strlit("for_element");
    reveal_strlit("formal_parameter");
    reveal_strlit("constructor_param");
    reveal_strlit("super_formal_parameter");
    reveal_strlit("identifier_list");
    reveal_strlit("mixin_application_class");
    reveal_strlit("catch_clause");
    reveal_strlit("import_specification");
    reveal_strlit("combinator");
    assert("assignment_expression"@[6] != "assignable_expression"@[6]);
    assert("assignment_expression"@[0] != "constructor_signature"@[0]);
    assert("assignment_expression"@[0] != "extension_declaration"@[0]);
    assert("assignable_expression"@[6] != "assignment_expression"@[6]);
    assert("assignable_expression"@[0] != "constructor_signature"@[0]);
    assert("assignable_expression"@[0] != "extension_declaration"@[0]);
    field_is_child(t, i, "left"@);
    first_of_kind_is_child(t, lhs, "identifier"@);
}

} // verus!
