//! What holds of the facts of Kotlin files.

use crate::extract::{inside, reference_at, reportable, Ctx};
use crate::extract::kotlin::{
    base_lists_in, bases_in, bindings_at, bindings_in, bodies_in, declared_bases, declared_type,
    decls_at, decls_in, function_parts_in, imports_at, imports_in, in_code, inherits_at,
    inherits_in, introduced, is_type_body, is_type_shape, lambda_names_in, lambda_params_in,
    leaves_at, leaves_in, named_type_refs_in, not_read, param_lists_in, params_in, reads_at,
    reads_in, reads_in_document_order, reads_of_nodes, references_of, simple_parts_in, type_in,
    type_refs_at, type_refs_in, typed_refs, untyped_parts_in, user_parts_in, writes_at, writes_in,
};
use crate::graph::types::{
    BindingKind, BindingView, RefRole, ReferenceView, Scope, SymbolView, TypeRefContext, Visibility,
};
use crate::items::{in_order_all, in_order_each};
use crate::parse::CaptureView;
use crate::symbol::DescriptorView;
use crate::syntax::{field_is_child, first_named_is_child, group_child_bounds, Syntax};
use super::{all_fit, belongs, calls_marked_fit, identifiers_apart, is_local, stands_in, starts_at};
use vstd::prelude::*;

verus! {

broadcast use group_child_bounds;

// ── Definitions ──────────────────────────────────────────────────────────────

/// Whether a symbol is one that a Kotlin file can define under the steps `prefix`.
pub open spec fn is_defined(c: Ctx, prefix: Seq<DescriptorView>, s: SymbolView) -> bool {
    &&& belongs(c, prefix, s)
    &&& s.visibility != Visibility::Unknown
    &&& stands_in(prefix, s)
    &&& starts_at(s, "main"@)
}

/// Whether all symbols are.
pub open spec fn all_defined(
    c: Ctx,
    prefix: Seq<DescriptorView>,
    symbols: Seq<SymbolView>,
) -> bool {
    forall|k: int| 0 <= k < symbols.len() ==> is_defined(c, prefix, #[trigger] symbols[k])
}

proof fn decls_at_defined(c: Ctx, prefix: Seq<DescriptorView>, inside: bool, i: int)
    ensures
        all_defined(c, prefix, decls_at(c, prefix, inside, i)),
    decreases c.tree.left(i), 1nat,
{
    let t = c.tree;
    let kind = t.kind(i);
    if t.has(i) {
        if kind == "class_declaration"@ || kind == "object_declaration"@
            || kind == "companion_object"@ {
            if let Some((type_kind, name)) = declared_type(t, i) {
                let leaf = DescriptorView::Type(name);
                bodies_in_defined(c, prefix + seq![leaf], i + 1, t.after(i));
            }
        }
    }
}

proof fn bodies_in_defined(c: Ctx, prefix: Seq<DescriptorView>, lo: int, hi: int)
    ensures
        all_defined(c, prefix, bodies_in(c, prefix, lo, hi)),
    decreases c.tree.left(lo), 0nat,
{
    if lo < hi && c.tree.has(lo) {
        if is_type_body(c.tree, lo) {
            definitions_belong(c, prefix, true, lo + 1, c.tree.after(lo));
        }
        bodies_in_defined(c, prefix, c.tree.next(lo, hi), hi);
    }
}

/// Each definition of a Kotlin file names the language and the file, extends
/// the steps `prefix` without further namespaces, has an identity that ends
/// with its name, is of known visibility, and is where the program starts only
/// if that name is `main`.
pub proof fn definitions_belong(c: Ctx, prefix: Seq<DescriptorView>, inside: bool, lo: int, hi: int)
    ensures
        all_defined(c, prefix, decls_in(c, prefix, inside, lo, hi)),
    decreases c.tree.left(lo), 2nat,
{
    if lo < hi && c.tree.has(lo) {
        decls_at_defined(c, prefix, inside, lo);
        definitions_belong(c, prefix, inside, c.tree.next(lo, hi), hi);
    }
}

// ── References ───────────────────────────────────────────────────────────────

proof fn reads_at_fit(t: Syntax, file: Seq<char>, i: int)
    ensures
        all_fit(file, reads_at(t, file, i)),
    decreases t.left(i), 0nat,
{
    if t.has(i) && t.kind(i) != "identifier"@ {
        reads_in_fit(t, file, i + 1, t.after(i));
    }
}

proof fn reads_in_fit(t: Syntax, file: Seq<char>, lo: int, hi: int)
    ensures
        all_fit(file, reads_in(t, file, lo, hi)),
    decreases t.left(lo), 1nat,
{
    if lo < hi && t.has(lo) {
        reads_at_fit(t, file, lo);
        reads_in_fit(t, file, t.next(lo, hi), hi);
    }
}

proof fn writes_at_fit(t: Syntax, file: Seq<char>, i: int)
    ensures
        all_fit(file, writes_at(t, file, i)),
    decreases t.left(i), 0nat,
{
    if t.has(i) {
        writes_in_fit(t, file, i + 1, t.after(i));
    }
}

proof fn writes_in_fit(t: Syntax, file: Seq<char>, lo: int, hi: int)
    ensures
        all_fit(file, writes_in(t, file, lo, hi)),
    decreases t.left(lo), 1nat,
{
    if lo < hi && t.has(lo) {
        writes_at_fit(t, file, lo);
        writes_in_fit(t, file, t.next(lo, hi), hi);
    }
}

proof fn simple_parts_in_fit(t: Syntax, file: Seq<char>, ctx: TypeRefContext, lo: int, hi: int)
    ensures
        all_fit(file, simple_parts_in(t, file, ctx, lo, hi)),
    decreases t.left(lo), 1nat,
{
    if lo < hi && t.has(lo) {
        if t.named(lo) && t.kind(lo) != "type_identifier"@ && t.kind(lo) == "type_arguments"@ {
            leaves_at_fit(t, file, TypeRefContext::GenericArg, lo);
        }
        simple_parts_in_fit(t, file, ctx, t.next(lo, hi), hi);
    }
}

proof fn user_parts_in_fit(t: Syntax, file: Seq<char>, ctx: TypeRefContext, lo: int, hi: int)
    ensures
        all_fit(file, user_parts_in(t, file, ctx, lo, hi)),
    decreases t.left(lo), 1nat,
{
    if lo < hi && t.has(lo) {
        if t.named(lo) {
            if t.kind(lo) == "simple_user_type"@ {
                simple_parts_in_fit(t, file, ctx, lo + 1, t.after(lo));
            } else if !(t.kind(lo) == "type_identifier"@ || t.kind(lo) == "identifier"@) {
                if t.kind(lo) == "type_arguments"@ {
                    leaves_at_fit(t, file, TypeRefContext::GenericArg, lo);
                }
            }
        }
        user_parts_in_fit(t, file, ctx, t.next(lo, hi), hi);
    }
}

proof fn leaves_at_fit(t: Syntax, file: Seq<char>, ctx: TypeRefContext, i: int)
    ensures
        all_fit(file, leaves_at(t, file, ctx, i)),
    decreases t.left(i), 0nat,
{
    let kind = t.kind(i);
    if t.has(i) && kind != "type_identifier"@ {
        if kind == "user_type"@ {
            user_parts_in_fit(t, file, ctx, i + 1, t.after(i));
        } else if kind == "type_arguments"@ {
            leaves_in_fit(t, file, TypeRefContext::GenericArg, i + 1, t.after(i));
        } else {
            leaves_in_fit(t, file, ctx, i + 1, t.after(i));
        }
    }
}

proof fn leaves_in_fit(t: Syntax, file: Seq<char>, ctx: TypeRefContext, lo: int, hi: int)
    ensures
        all_fit(file, leaves_in(t, file, ctx, lo, hi)),
    decreases t.left(lo), 1nat,
{
    if lo < hi && t.has(lo) {
        if t.named(lo) {
            leaves_at_fit(t, file, ctx, lo);
        }
        leaves_in_fit(t, file, ctx, t.next(lo, hi), hi);
    }
}

proof fn typed_refs_fit(t: Syntax, file: Seq<char>, ctx: TypeRefContext, i: int)
    ensures
        all_fit(file, typed_refs(t, file, ctx, i)),
{
    if let Some(ty) = type_in(t, i + 1, t.after(i)) {
        leaves_at_fit(t, file, ctx, ty);
    }
}

proof fn type_refs_at_fit(t: Syntax, file: Seq<char>, i: int)
    ensures
        all_fit(file, type_refs_at(t, file, i)),
    decreases t.left(i), 0nat,
{
    let kind = t.kind(i);
    if t.has(i) {
        if kind == "parameter"@ || kind == "class_parameter"@ {
            typed_refs_fit(t, file, TypeRefContext::ParameterType, i);
            untyped_parts_in_fit(t, file, i + 1, t.after(i));
        } else if kind == "function_declaration"@ {
            function_parts_in_fit(t, file, i + 1, t.after(i), false);
        } else if kind == "variable_declaration"@ {
            typed_refs_fit(t, file, TypeRefContext::Field, i);
        } else {
            type_refs_in_fit(t, file, i + 1, t.after(i));
        }
    }
}

proof fn function_parts_in_fit(t: Syntax, file: Seq<char>, lo: int, hi: int, past_params: bool)
    ensures
        all_fit(file, function_parts_in(t, file, lo, hi, past_params)),
    decreases t.left(lo), 2nat,
{
    if lo < hi && t.has(lo) {
        if !t.named(lo) {
            function_parts_in_fit(t, file, t.next(lo, hi), hi, past_params);
        } else if t.kind(lo) == "function_value_parameters"@ {
            named_type_refs_in_fit(t, file, lo + 1, t.after(lo));
            function_parts_in_fit(t, file, t.next(lo, hi), hi, true);
        } else if is_type_shape(t, lo) {
            if past_params {
                leaves_at_fit(t, file, TypeRefContext::ReturnType, lo);
            }
            function_parts_in_fit(t, file, t.next(lo, hi), hi, past_params);
        } else {
            type_refs_at_fit(t, file, lo);
            function_parts_in_fit(t, file, t.next(lo, hi), hi, past_params);
        }
    }
}

proof fn type_refs_in_fit(t: Syntax, file: Seq<char>, lo: int, hi: int)
    ensures
        all_fit(file, type_refs_in(t, file, lo, hi)),
    decreases t.left(lo), 1nat,
{
    if lo < hi && t.has(lo) {
        type_refs_at_fit(t, file, lo);
        type_refs_in_fit(t, file, t.next(lo, hi), hi);
    }
}

proof fn named_type_refs_in_fit(t: Syntax, file: Seq<char>, lo: int, hi: int)
    ensures
        all_fit(file, named_type_refs_in(t, file, lo, hi)),
    decreases t.left(lo), 1nat,
{
    if lo < hi && t.has(lo) {
        if t.named(lo) {
            type_refs_at_fit(t, file, lo);
        }
        named_type_refs_in_fit(t, file, t.next(lo, hi), hi);
    }
}

proof fn untyped_parts_in_fit(t: Syntax, file: Seq<char>, lo: int, hi: int)
    ensures
        all_fit(file, untyped_parts_in(t, file, lo, hi)),
    decreases t.left(lo), 1nat,
{
    if lo < hi && t.has(lo) {
        if !is_type_shape(t, lo) {
            type_refs_at_fit(t, file, lo);
        }
        untyped_parts_in_fit(t, file, t.next(lo, hi), hi);
    }
}

proof fn bases_in_fit(t: Syntax, file: Seq<char>, lo: int, hi: int)
    ensures
        all_fit(file, bases_in(t, file, lo, hi)),
    decreases hi - lo,
{
    if lo < hi {
        bases_in_fit(t, file, t.next(lo, hi), hi);
    }
}

proof fn base_lists_in_fit(t: Syntax, file: Seq<char>, lo: int, hi: int)
    ensures
        all_fit(file, base_lists_in(t, file, lo, hi)),
    decreases hi - lo,
{
    if lo < hi {
        if t.kind(lo) == "delegation_specifiers"@ {
            bases_in_fit(t, file, lo + 1, t.after(lo));
        }
        base_lists_in_fit(t, file, t.next(lo, hi), hi);
    }
}

proof fn declared_bases_fit(t: Syntax, file: Seq<char>, i: int)
    ensures
        all_fit(file, declared_bases(t, file, i)),
{
    if t.kind(i) == "class_declaration"@ || t.kind(i) == "object_declaration"@ {
        base_lists_in_fit(t, file, i + 1, t.after(i));
    }
}

proof fn inherits_at_fit(t: Syntax, file: Seq<char>, i: int)
    ensures
        all_fit(file, inherits_at(t, file, i)),
    decreases t.left(i), 0nat,
{
    if t.has(i) {
        declared_bases_fit(t, file, i);
        inherits_in_fit(t, file, i + 1, t.after(i));
    }
}

proof fn inherits_in_fit(t: Syntax, file: Seq<char>, lo: int, hi: int)
    ensures
        all_fit(file, inherits_in(t, file, lo, hi)),
    decreases t.left(lo), 1nat,
{
    if lo < hi && t.has(lo) {
        inherits_at_fit(t, file, lo);
        inherits_in_fit(t, file, t.next(lo, hi), hi);
    }
}

proof fn imports_at_fit(t: Syntax, file: Seq<char>, module: Seq<char>, i: int)
    ensures
        all_fit(file, imports_at(t, file, module, i)),
    decreases t.left(i), 0nat,
{
    if t.has(i) && t.kind(i) != "import"@ {
        imports_in_fit(t, file, module, i + 1, t.after(i));
    }
}

proof fn imports_in_fit(t: Syntax, file: Seq<char>, module: Seq<char>, lo: int, hi: int)
    ensures
        all_fit(file, imports_in(t, file, module, lo, hi)),
    decreases t.left(lo), 1nat,
{
    if lo < hi && t.has(lo) {
        imports_at_fit(t, file, module, lo);
        imports_in_fit(t, file, module, t.next(lo, hi), hi);
    }
}

/// Each reference of a Kotlin file stands in the file. A call, a read or a write has a
/// name that is long enough, a call on the object itself has no qualifier, and only
/// a type reference says where its type stands.
pub proof fn references_fit(
    t: Syntax,
    file: Seq<char>,
    module: Seq<char>,
    found: Seq<Seq<CaptureView>>,
    on_self: Seq<Seq<CaptureView>>,
)
    ensures
        all_fit(file, references_of(t, file, module, found, on_self)),
{
    calls_marked_fit(t.source, file, found, on_self);
    inherits_at_fit(t, file, 0);
    imports_at_fit(t, file, module, 0);
    type_refs_at_fit(t, file, 0);
    reads_at_fit(t, file, 0);
    writes_at_fit(t, file, 0);
}

// ── Local names ──────────────────────────────────────────────────────────────

/// Whether names are bound in the innermost scopes at their places, those that are
/// no parameters in functions and blocks only.
pub open spec fn all_in_code(scopes: Seq<Scope>, bindings: Seq<BindingView>) -> bool {
    forall|k: int|
        0 <= k < bindings.len() ==> is_local(scopes, #[trigger] bindings[k]) && (bindings[k].kind
            == BindingKind::Local ==> in_code(scopes, bindings[k].intro))
}

proof fn params_in_nested(t: Syntax, scopes: Seq<Scope>, lo: int, hi: int)
    ensures
        all_in_code(scopes, params_in(t, scopes, lo, hi)),
    decreases hi - lo,
{
    if lo < hi {
        params_in_nested(t, scopes, t.next(lo, hi), hi);
    }
}

proof fn param_lists_in_nested(t: Syntax, scopes: Seq<Scope>, lo: int, hi: int)
    ensures
        all_in_code(scopes, param_lists_in(t, scopes, lo, hi)),
    decreases hi - lo,
{
    if lo < hi {
        if t.kind(lo) == "function_value_parameters"@ {
            params_in_nested(t, scopes, lo + 1, t.after(lo));
        }
        param_lists_in_nested(t, scopes, t.next(lo, hi), hi);
    }
}

proof fn lambda_names_in_nested(t: Syntax, scopes: Seq<Scope>, lo: int, hi: int)
    ensures
        all_in_code(scopes, lambda_names_in(t, scopes, lo, hi)),
    decreases hi - lo,
{
    if lo < hi {
        lambda_names_in_nested(t, scopes, t.next(lo, hi), hi);
    }
}

proof fn lambda_params_in_nested(t: Syntax, scopes: Seq<Scope>, lo: int, hi: int)
    ensures
        all_in_code(scopes, lambda_params_in(t, scopes, lo, hi)),
    decreases hi - lo,
{
    if lo < hi {
        if t.kind(lo) == "lambda_parameters"@ {
            lambda_names_in_nested(t, scopes, lo + 1, t.after(lo));
        }
        lambda_params_in_nested(t, scopes, t.next(lo, hi), hi);
    }
}

proof fn introduced_nested(t: Syntax, scopes: Seq<Scope>, i: int)
    ensures
        all_in_code(scopes, introduced(t, scopes, i)),
{
    let kind = t.kind(i);
    if kind == "function_declaration"@ || kind == "anonymous_function"@
        || kind == "secondary_constructor"@ {
        param_lists_in_nested(t, scopes, i + 1, t.after(i));
    } else if kind == "lambda_literal"@ {
        lambda_params_in_nested(t, scopes, i + 1, t.after(i));
    }
}

/// Each local name of a Kotlin file is bound in the innermost scope at its place. One
/// that is no parameter is bound in a function or a block: neither what a type nor
/// what the file as a whole holds is local.
pub proof fn locals_are_nested(t: Syntax, scopes: Seq<Scope>, i: int)
    ensures
        all_in_code(scopes, bindings_at(t, scopes, i)),
    decreases t.left(i), 0nat,
{
    if t.has(i) {
        introduced_nested(t, scopes, i);
        bindings_in_nested(t, scopes, i + 1, t.after(i));
    }
}

proof fn bindings_in_nested(t: Syntax, scopes: Seq<Scope>, lo: int, hi: int)
    ensures
        all_in_code(scopes, bindings_in(t, scopes, lo, hi)),
    decreases t.left(lo), 1nat,
{
    if lo < hi && t.has(lo) {
        locals_are_nested(t, scopes, lo);
        bindings_in_nested(t, scopes, t.next(lo, hi), hi);
    }
}

// ── Reads ────────────────────────────────────────────────────────────────────

/// Whether node `i` is an identifier that is long enough and stands where it is
/// read.
pub open spec fn is_read(t: Syntax, i: int) -> bool {
    t.kind(i) == "identifier"@ && reportable(t.text(i)) && !not_read(t, i)
}

/// Each identifier of a Kotlin file that is read is reported.
pub proof fn reads_are_complete(t: Syntax, file: Seq<char>, i: int)
    requires
        t.nested(),
        t.has(0),
        identifiers_apart(t),
        0 <= i < t.after(0),
        is_read(t, i),
    ensures
        reads_at(t, file, 0).contains(reference_at(t, file, i, t.text(i), RefRole::Read)),
{
    let items = reads_of_nodes(t, file);
    reads_in_document_order(t, file, 0);
    assert(items(i)[0] == reference_at(t, file, i, t.text(i), RefRole::Read));
    in_order_each(items, 0, t.after(0), i, 0);
}

/// Each read that is reported of a Kotlin file is an identifier that is read.
pub proof fn reads_are_sound(t: Syntax, file: Seq<char>, k: int)
    requires
        t.nested(),
        t.has(0),
        identifiers_apart(t),
        0 <= k < reads_at(t, file, 0).len(),
    ensures
        exists|i: int|
            0 <= i < t.after(0) && #[trigger] is_read(t, i) && reads_at(t, file, 0)[k]
                == reference_at(t, file, i, t.text(i), RefRole::Read),
{
    let items = reads_of_nodes(t, file);
    let is_one = |r: ReferenceView|
        exists|i: int|
            0 <= i < t.after(0) && #[trigger] is_read(t, i) && r == reference_at(
                t,
                file,
                i,
                t.text(i),
                RefRole::Read,
            );
    reads_in_document_order(t, file, 0);
    assert forall|i: int, k: int| 0 <= i < t.after(0) && 0 <= k < items(i).len() implies is_one(
        #[trigger] items(i)[k],
    ) by {
        assert(is_read(t, i));
    }
    in_order_all(items, 0, t.after(0), is_one);
    assert(is_one(reads_at(t, file, 0)[k]));
}

// ── Names that are reported once ─────────────────────────────────────────────

/// The name that a call in a Kotlin file calls is not read as well.
pub proof fn callee_is_not_read(t: Syntax, i: int)
    requires
        t.linked(),
        t.has(i),
        t.kind(i) == "call_expression"@,
    ensures
        t.named_child(i) matches Some(callee) ==> not_read(t, callee),
{
    reveal_strlit("call_expression");
    reveal_strlit("navigation_expression");
    reveal_strlit("function_declaration");
    reveal_strlit("class_declaration");
    reveal_strlit("object_declaration");
    reveal_strlit("companion_object");
    reveal_strlit("type_alias");
    reveal_strlit("variable_declaration");
    reveal_strlit("parameter");
    reveal_strlit("class_parameter");
    reveal_strlit("assignment");
    reveal_strlit("import");
    reveal_strlit("qualified_identifier");
    reveal_strlit("package_header");
    reveal_strlit("user_type");
    reveal_strlit("type_identifier");
    assert("call_expression"@[1] != "class_parameter"@[1]);
    assert("call_expression"@[0] != "type_identifier"@[0]);
    first_named_is_child(t, i);
}

/// The name that an assignment in a Kotlin file writes is not read as well.
pub proof fn target_is_not_read(t: Syntax, i: int)
    requires
        t.linked(),
        t.has(i),
        t.kind(i) == "assignment"@,
    ensures
        t.child(i, "left"@) matches Some(target) ==> not_read(t, target),
{
    reveal_strlit("call_expression");
    reveal_strlit("navigation_expression");
    reveal_strlit("function_declaration");
    reveal_strlit("class_declaration");
    reveal_strlit("object_declaration");
    reveal_strlit("companion_object");
    reveal_strlit("type_alias");
    reveal_strlit("variable_declaration");
    reveal_strlit("parameter");
    reveal_strlit("class_parameter");
    reveal_strlit("assignment");
    reveal_strlit("import");
    reveal_strlit("qualified_identifier");
    reveal_strlit("package_header");
    reveal_strlit("user_type");
    reveal_strlit("type_identifier");
    assert("assignment"@[0] != "type_alias"@[0]);
    field_is_child(t, i, "left"@);
}

} // verus!
