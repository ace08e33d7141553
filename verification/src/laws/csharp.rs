//! What holds of the facts of C# files.

use crate::extract::{reference_at, reportable, Ctx};
use crate::extract::csharp::{
    bases_in, bindings_at, bindings_in, declarators_in, declared_in, field_types_in, fields_in,
    imports_at, imports_in, inherits_at, inherits_in, introduced, leaves_at, leaves_in,
    listed_bases, locals_in, member_visibility, members_in, not_read, own_type_refs, params_in,
    reads_at, reads_in, reads_in_document_order, reads_of_nodes, references_of, type_at, type_kind,
    type_refs_at, type_refs_in, typed_refs, types_in, writes_at, writes_in,
};
use crate::graph::types::{
    RefRole, ReferenceView, Scope, SymbolKind, SymbolView, TypeRefContext, Visibility,
};
use crate::items::{in_order_all, in_order_each};
use crate::parse::CaptureView;
use crate::symbol::DescriptorView;
use crate::syntax::{field_is_child, group_child_bounds, Syntax};
use super::{
    all_fit, all_nested, belongs, calls_marked_fit, identifiers_apart, stands_in, starts_at,
};
use vstd::prelude::*;

verus! {

broadcast use group_child_bounds;

// ── Definitions ──────────────────────────────────────────────────────────────

/// Whether a symbol is one that a C# file can define under the steps `prefix`.
pub open spec fn is_defined(c: Ctx, prefix: Seq<DescriptorView>, s: SymbolView) -> bool {
    &&& belongs(c, prefix, s)
    &&& s.visibility != Visibility::Unknown
    &&& stands_in(prefix, s)
    &&& starts_at(s, "Main"@)
}

/// Whether all symbols are.
pub open spec fn all_defined(
    c: Ctx,
    prefix: Seq<DescriptorView>,
    symbols: Seq<SymbolView>,
) -> bool {
    forall|k: int| 0 <= k < symbols.len() ==> is_defined(c, prefix, #[trigger] symbols[k])
}

proof fn declarators_in_defined(
    c: Ctx,
    prefix: Seq<DescriptorView>,
    visibility: Visibility,
    owner: int,
    lo: int,
    hi: int,
)
    requires
        visibility != Visibility::Unknown,
    ensures
        all_defined(c, prefix, declarators_in(c, prefix, visibility, owner, lo, hi)),
    decreases hi - lo,
{
    if lo < hi {
        declarators_in_defined(c, prefix, visibility, owner, c.tree.next(lo, hi), hi);
    }
}

proof fn fields_in_defined(
    c: Ctx,
    prefix: Seq<DescriptorView>,
    visibility: Visibility,
    owner: int,
    lo: int,
    hi: int,
)
    requires
        visibility != Visibility::Unknown,
    ensures
        all_defined(c, prefix, fields_in(c, prefix, visibility, owner, lo, hi)),
    decreases hi - lo,
{
    if lo < hi {
        if c.tree.kind(lo) == "variable_declaration"@ {
            declarators_in_defined(c, prefix, visibility, owner, lo + 1, c.tree.after(lo));
        }
        fields_in_defined(c, prefix, visibility, owner, c.tree.next(lo, hi), hi);
    }
}

proof fn type_at_defined(c: Ctx, prefix: Seq<DescriptorView>, implicit: bool, i: int)
    ensures
        all_defined(c, prefix, type_at(c, prefix, implicit, i)),
    decreases c.tree.left(i), 0nat,
{
    let t = c.tree;
    if t.has(i) {
        match (type_kind(t, i), t.field_text(i, "name"@)) {
            (Some(kind), Some(name)) => {
                if let Some(body) = t.child(i, "body"@) {
                    members_in_defined(
                        c,
                        prefix + seq![DescriptorView::Type(name)],
                        kind == SymbolKind::Interface,
                        body + 1,
                        t.after(body),
                    );
                }
            },
            _ => {},
        }
    }
}

proof fn members_in_defined(c: Ctx, prefix: Seq<DescriptorView>, implicit: bool, lo: int, hi: int)
    ensures
        all_defined(c, prefix, members_in(c, prefix, implicit, lo, hi)),
    decreases c.tree.left(lo), 1nat,
{
    let t = c.tree;
    if lo < hi && t.has(lo) {
        if !(t.kind(lo) == "method_declaration"@ || t.kind(lo) == "constructor_declaration"@
            || t.kind(lo) == "property_declaration"@) {
            if t.kind(lo) == "field_declaration"@ {
                fields_in_defined(
                    c,
                    prefix,
                    member_visibility(t, lo, implicit),
                    lo,
                    lo + 1,
                    t.after(lo),
                );
            } else if t.kind(lo) != "enum_member_declaration"@ {
                type_at_defined(c, prefix, implicit, lo);
            }
        }
        members_in_defined(c, prefix, implicit, t.next(lo, hi), hi);
    }
}

/// Each definition of a C# file names the language and the file, extends the
/// steps `prefix` without further namespaces, has an identity that ends with
/// its name, is of known visibility, and is where the program starts only if
/// that name is `Main`.
pub proof fn definitions_belong(
    c: Ctx,
    prefix: Seq<DescriptorView>,
    implicit: bool,
    lo: int,
    hi: int,
)
    ensures
        all_defined(c, prefix, types_in(c, prefix, implicit, lo, hi)),
    decreases c.tree.left(lo), 1nat,
{
    let t = c.tree;
    if lo < hi && t.has(lo) {
        if t.kind(lo) == "namespace_declaration"@
            || t.kind(lo) == "file_scoped_namespace_declaration"@ {
            if let Some(body) = t.child(lo, "body"@) {
                definitions_belong(c, prefix, false, body + 1, t.after(body));
            }
        } else {
            type_at_defined(c, prefix, implicit, lo);
        }
        definitions_belong(c, prefix, implicit, t.next(lo, hi), hi);
    }
}

// ── References ───────────────────────────────────────────────────────────────

proof fn bases_in_fit(t: Syntax, file: Seq<char>, lo: int, hi: int)
    ensures
        all_fit(file, bases_in(t, file, lo, hi)),
    decreases hi - lo,
{
    if lo < hi {
        bases_in_fit(t, file, t.next(lo, hi), hi);
    }
}

proof fn listed_bases_fit(t: Syntax, file: Seq<char>, i: int)
    ensures
        all_fit(file, listed_bases(t, file, i)),
{
    if t.kind(i) == "base_list"@ {
        bases_in_fit(t, file, i + 1, t.after(i));
    }
}

proof fn inherits_at_fit(t: Syntax, file: Seq<char>, i: int)
    ensures
        all_fit(file, inherits_at(t, file, i)),
    decreases t.left(i), 0nat,
{
    if t.has(i) {
        listed_bases_fit(t, file, i);
        inherits_in_fit(t, file, i + 1, t.after(i));
    }
}

proof fn inherits_in_fit(t: Syntax, file: Seq<char>, lo: int, hi: int)
    ensures
        all_fit(file, inherits_in(t, file, lo, hi)),
    decreases t.left(lo), 1nat,
{
    if lo < hi && t.has(lo) {
        inherits_at_fit(t, file, lo);
        inherits_in_fit(t, file, t.next(lo, hi), hi);
    }
}

proof fn imports_at_fit(t: Syntax, file: Seq<char>, module: Seq<char>, i: int)
    ensures
        all_fit(file, imports_at(t, file, module, i)),
    decreases t.left(i), 0nat,
{
    if t.has(i) && t.kind(i) != "using_directive"@ {
        imports_in_fit(t, file, module, i + 1, t.after(i));
    }
}

proof fn imports_in_fit(t: Syntax, file: Seq<char>, module: Seq<char>, lo: int, hi: int)
    ensures
        all_fit(file, imports_in(t, file, module, lo, hi)),
    decreases t.left(lo), 1nat,
{
    if lo < hi && t.has(lo) {
        imports_at_fit(t, file, module, lo);
        imports_in_fit(t, file, module, t.next(lo, hi), hi);
    }
}

proof fn reads_at_fit(t: Syntax, file: Seq<char>, i: int)
    ensures
        all_fit(file, reads_at(t, file, i)),
    decreases t.left(i), 0nat,
{
    if t.has(i) && t.kind(i) != "identifier"@ {
        reads_in_fit(t, file, i + 1, t.after(i));
    }
}

proof fn reads_in_fit(t: Syntax, file: Seq<char>, lo: int, hi: int)
    ensures
        all_fit(file, reads_in(t, file, lo, hi)),
    decreases t.left(lo), 1nat,
{
    if lo < hi && t.has(lo) {
        reads_at_fit(t, file, lo);
        reads_in_fit(t, file, t.next(lo, hi), hi);
    }
}

proof fn writes_at_fit(t: Syntax, file: Seq<char>, i: int)
    ensures
        all_fit(file, writes_at(t, file, i)),
    decreases t.left(i), 0nat,
{
    if t.has(i) {
        writes_in_fit(t, file, i + 1, t.after(i));
    }
}

proof fn writes_in_fit(t: Syntax, file: Seq<char>, lo: int, hi: int)
    ensures
        all_fit(file, writes_in(t, file, lo, hi)),
    decreases t.left(lo), 1nat,
{
    if lo < hi && t.has(lo) {
        writes_at_fit(t, file, lo);
        writes_in_fit(t, file, t.next(lo, hi), hi);
    }
}

proof fn leaves_at_fit(t: Syntax, file: Seq<char>, ctx: TypeRefContext, i: int)
    ensures
        all_fit(file, leaves_at(t, file, ctx, i)),
    decreases t.left(i), 0nat,
{
    let kind = t.kind(i);
    if !(!t.has(i) || kind == "predefined_type"@ || kind == "void_keyword"@) {
        if kind != "identifier"@ {
            if !(kind == "qualified_name"@ || kind == "generic_name"@) {
                if kind == "nullable_type"@ || kind == "array_type"@ {
                    if let Some(element) = t.named_child(i) {
                        leaves_at_fit(t, file, ctx, element);
                    }
                } else {
                    leaves_in_fit(t, file, ctx, i + 1, t.after(i));
                }
            }
        }
    }
}

proof fn leaves_in_fit(t: Syntax, file: Seq<char>, ctx: TypeRefContext, lo: int, hi: int)
    ensures
        all_fit(file, leaves_in(t, file, ctx, lo, hi)),
    decreases t.left(lo), 1nat,
{
    if lo < hi && t.has(lo) {
        if t.named(lo) {
            leaves_at_fit(t, file, ctx, lo);
        }
        leaves_in_fit(t, file, ctx, t.next(lo, hi), hi);
    }
}

proof fn typed_refs_fit(t: Syntax, file: Seq<char>, ctx: TypeRefContext, field: Seq<char>, i: int)
    ensures
        all_fit(file, typed_refs(t, file, ctx, field, i)),
{
    if let Some(ty) = t.child(i, field) {
        leaves_at_fit(t, file, ctx, ty);
    }
}

proof fn field_types_in_fit(t: Syntax, file: Seq<char>, lo: int, hi: int)
    ensures
        all_fit(file, field_types_in(t, file, lo, hi)),
    decreases hi - lo,
{
    if lo < hi {
        if t.kind(lo) == "variable_declaration"@ {
            typed_refs_fit(t, file, TypeRefContext::Field, "type"@, lo);
        }
        field_types_in_fit(t, file, t.next(lo, hi), hi);
    }
}

proof fn own_type_refs_fit(t: Syntax, file: Seq<char>, i: int)
    ensures
        all_fit(file, own_type_refs(t, file, i)),
{
    let kind = t.kind(i);
    if kind == "method_declaration"@ {
        typed_refs_fit(t, file, TypeRefContext::ReturnType, "returns"@, i);
    } else if kind == "parameter"@ {
        typed_refs_fit(t, file, TypeRefContext::ParameterType, "type"@, i);
    } else if kind == "field_declaration"@ {
        field_types_in_fit(t, file, i + 1, t.after(i));
    } else if kind == "property_declaration"@ {
        typed_refs_fit(t, file, TypeRefContext::Field, "type"@, i);
    }
}

proof fn type_refs_at_fit(t: Syntax, file: Seq<char>, i: int)
    ensures
        all_fit(file, type_refs_at(t, file, i)),
    decreases t.left(i), 0nat,
{
    if t.has(i) {
        own_type_refs_fit(t, file, i);
        type_refs_in_fit(t, file, i + 1, t.after(i));
    }
}

proof fn type_refs_in_fit(t: Syntax, file: Seq<char>, lo: int, hi: int)
    ensures
        all_fit(file, type_refs_in(t, file, lo, hi)),
    decreases t.left(lo), 1nat,
{
    if lo < hi && t.has(lo) {
        type_refs_at_fit(t, file, lo);
        type_refs_in_fit(t, file, t.next(lo, hi), hi);
    }
}

/// Each reference of a C# file stands in the file. A call, a read or a write has a
/// name that is long enough, a call on the object itself has no qualifier, and only
/// a type reference says where its type stands.
pub proof fn references_fit(
    t: Syntax,
    file: Seq<char>,
    module: Seq<char>,
    found: Seq<Seq<CaptureView>>,
    on_self: Seq<Seq<CaptureView>>,
)
    ensures
        all_fit(file, references_of(t, file, module, found, on_self)),
{
    calls_marked_fit(t.source, file, found, on_self);
    inherits_at_fit(t, file, 0);
    imports_at_fit(t, file, module, 0);
    type_refs_at_fit(t, file, 0);
    reads_at_fit(t, file, 0);
    writes_at_fit(t, file, 0);
}

// ── Local names ──────────────────────────────────────────────────────────────

proof fn locals_in_nested(t: Syntax, scopes: Seq<Scope>, owner: int, lo: int, hi: int)
    ensures
        all_nested(scopes, locals_in(t, scopes, owner, lo, hi)),
    decreases hi - lo,
{
    if lo < hi {
        locals_in_nested(t, scopes, owner, t.next(lo, hi), hi);
    }
}

proof fn declared_in_nested(t: Syntax, scopes: Seq<Scope>, lo: int, hi: int)
    ensures
        all_nested(scopes, declared_in(t, scopes, lo, hi)),
    decreases hi - lo,
{
    if lo < hi {
        if t.kind(lo) == "variable_declaration"@ {
            locals_in_nested(t, scopes, lo, lo + 1, t.after(lo));
        }
        declared_in_nested(t, scopes, t.next(lo, hi), hi);
    }
}

proof fn params_in_nested(t: Syntax, scopes: Seq<Scope>, lo: int, hi: int)
    ensures
        all_nested(scopes, params_in(t, scopes, lo, hi)),
    decreases hi - lo,
{
    if lo < hi {
        params_in_nested(t, scopes, t.next(lo, hi), hi);
    }
}

proof fn introduced_nested(t: Syntax, scopes: Seq<Scope>, i: int)
    ensures
        all_nested(scopes, introduced(t, scopes, i)),
{
    let kind = t.kind(i);
    if kind == "method_declaration"@ || kind == "constructor_declaration"@ {
        if let Some(params) = t.child(i, "parameters"@) {
            params_in_nested(t, scopes, params + 1, t.after(params));
        }
    } else if kind == "local_declaration_statement"@ {
        declared_in_nested(t, scopes, i + 1, t.after(i));
    }
}

/// Each local name of a C# file is bound in the innermost scope at its place. One
/// that is no parameter never stands in that of the file as a whole.
pub proof fn locals_are_nested(t: Syntax, scopes: Seq<Scope>, i: int)
    ensures
        all_nested(scopes, bindings_at(t, scopes, i)),
    decreases t.left(i), 0nat,
{
    if t.has(i) {
        introduced_nested(t, scopes, i);
        bindings_in_nested(t, scopes, i + 1, t.after(i));
    }
}

proof fn bindings_in_nested(t: Syntax, scopes: Seq<Scope>, lo: int, hi: int)
    ensures
        all_nested(scopes, bindings_in(t, scopes, lo, hi)),
    decreases t.left(lo), 1nat,
{
    if lo < hi && t.has(lo) {
        locals_are_nested(t, scopes, lo);
        bindings_in_nested(t, scopes, t.next(lo, hi), hi);
    }
}

// ── Reads ────────────────────────────────────────────────────────────────────

/// Whether node `i` is an identifier that is long enough and stands where it is
/// read.
pub open spec fn is_read(t: Syntax, i: int) -> bool {
    t.kind(i) == "identifier"@ && reportable(t.text(i)) && !not_read(t, i)
}

/// Each identifier of a C# file that is read is reported.
pub proof fn reads_are_complete(t: Syntax, file: Seq<char>, i: int)
    requires
        t.nested(),
        t.has(0),
        identifiers_apart(t),
        0 <= i < t.after(0),
        is_read(t, i),
    ensures
        reads_at(t, file, 0).contains(reference_at(t, file, i, t.text(i), RefRole::Read)),
{
    let items = reads_of_nodes(t, file);
    reads_in_document_order(t, file, 0);
    assert(items(i)[0] == reference_at(t, file, i, t.text(i), RefRole::Read));
    in_order_each(items, 0, t.after(0), i, 0);
}

/// Each read that is reported of a C# file is an identifier that is read.
pub proof fn reads_are_sound(t: Syntax, file: Seq<char>, k: int)
    requires
        t.nested(),
        t.has(0),
        identifiers_apart(t),
        0 <= k < reads_at(t, file, 0).len(),
    ensures
        exists|i: int|
            0 <= i < t.after(0) && #[trigger] is_read(t, i) && reads_at(t, file, 0)[k]
                == reference_at(t, file, i, t.text(i), RefRole::Read),
{
    let items = reads_of_nodes(t, file);
    let is_one = |r: ReferenceView|
        exists|i: int|
            0 <= i < t.after(0) && #[trigger] is_read(t, i) && r == reference_at(
                t,
                file,
                i,
                t.text(i),
                RefRole::Read,
            );
    reads_in_document_order(t, file, 0);
    assert forall|i: int, k: int| 0 <= i < t.after(0) && 0 <= k < items(i).len() implies is_one(
        #[trigger] items(i)[k],
    ) by {
        assert(is_read(t, i));
    }
    in_order_all(items, 0, t.after(0), is_one);
    assert(is_one(reads_at(t, file, 0)[k]));
}

// ── Names that are reported once ─────────────────────────────────────────────

/// The name that a call in a C# file calls is not read as well.
pub proof fn callee_is_not_read(t: Syntax, i: int)
    requires
        t.linked(),
        t.has(i),
        t.kind(i) == "invocation_expression"@,
    ensures
        t.child(i, "function"@) matches Some(callee) ==> not_read(t, callee),
{
    reveal_strlit("invocation_expression");
    reveal_strlit("member_access_expression");
    reveal_strlit("generic_name");
    reveal_strlit("assignment_expression");
    reveal_strlit("foreach_statement");
    reveal_strlit("using_directive");
    reveal_strlit("qualified_name");
    reveal_strlit("base_list");
    reveal_strlit("type_argument_list");
    reveal_strlit("method_declaration");
    reveal_strlit("constructor_declaration");
    reveal_strlit("destructor_declaration");
    reveal_strlit("property_declaration");
    reveal_strlit("event_declaration");
    reveal_strlit("delegate_declaration");
    reveal_strlit("class_declaration");
    reveal_strlit("struct_declaration");
    reveal_strlit("interface_declaration");
    reveal_strlit("enum_declaration");
    reveal_strlit("record_declaration");
    reveal_strlit("namespace_declaration");
    reveal_strlit("file_scoped_namespace_declaration");
    reveal_strlit("local_function_statement");
    reveal_strlit("type_parameter");
    reveal_strlit("enum_member_declaration");
    reveal_strlit("variable_declarator");
    reveal_strlit("parameter");
    reveal_strlit("catch_declaration");
    assert("invocation_expression"@[0] != "assignment_expression"@[0]);
    assert("invocation_expression"@[2] != "interface_declaration"@[2]);
    assert("invocation_expression"@[0] != "namespace_declaration"@[0]);
    field_is_child(t, i, "function"@);
}

/// The name that an assignment in a C# file writes is not read as well.
pub proof fn target_is_not_read(t: Syntax, i: int)
    requires
        t.linked(),
        t.has(i),
        t.kind(i) == "assignment_expression"@,
    ensures
        t.child(i, "left"@) matches Some(target) ==> not_read(t, target),
{
    reveal_strlit("invocation_expression");
    reveal_strlit("member_access_expression");
    reveal_strlit("generic_name");
    reveal_strlit("assignment_expression");
    reveal_strlit("foreach_statement");
    reveal_strlit("using_directive");
    reveal_strlit("qualified_name");
    reveal_strlit("base_list");
    reveal_strlit("type_argument_list");
    reveal_strlit("method_declaration");
    reveal_strlit("constructor_declaration");
    reveal_strlit("destructor_declaration");
    reveal_strlit("property_declaration");
    reveal_strlit("event_declaration");
    reveal_strlit("delegate_declaration");
    reveal_strlit("class_declaration");
    reveal_strlit("struct_declaration");
    reveal_strlit("interface_declaration");
    reveal_strlit("enum_declaration");
    reveal_strlit("record_declaration");
    reveal_strlit("namespace_declaration");
    reveal_strlit("file_scoped_namespace_declaration");
    reveal_strlit("local_function_statement");
    reveal_strlit("type_parameter");
    reveal_strlit("enum_member_declaration");
    reveal_strlit("variable_declarator");
    reveal_strlit("parameter");
    reveal_strlit("catch_declaration");
    assert("assignment_expression"@[0] != "invocation_expression"@[0]);
    assert("assignment_expression"@[0] != "interface_declaration"@[0]);
    assert("assignment_expression"@[0] != "namespace_declaration"@[0]);
    field_is_child(t, i, "left"@);
}

} // verus!
