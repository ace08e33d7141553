//! What holds of the facts of Go files.

use crate::extract::{reference_at, reportable, Ctx};
use crate::extract::go::{
    assignment_writes, bindings_at, bindings_in, directory, function_params, imports_at, imports_in,
    introduced, is_spec, is_typed, leaves_at, leaves_in, names_in, namespaces_of, not_read,
    own_type_refs, param_names_in, params_in, ranged_in, reads_at, reads_in,
    reads_in_document_order, reads_of_nodes, references_of, result_refs, results_in,
    short_locals_in, spec_parts_in, specs_in, symbols_at, symbols_in, type_refs_at, type_refs_in,
    typed_refs, types_in, variables_in, writes_at, writes_in, writes_to,
};
use crate::graph::types::{
    RefRole, ReferenceView, Scope, SymbolKind, SymbolView, TypeRefContext, Visibility,
};
use crate::items::{in_order_all, in_order_each};
use crate::parse::CaptureView;
use crate::symbol::{namespace_steps, namespaces_render_apart, scip_text, DescriptorView};
use crate::syntax::{field_is_child, group_child_bounds, Syntax};
use crate::text::{
    all_plain, before_last, has_prefix, last_index, segments, segments_are_plain, without_prefix,
};
use super::{all_fit, all_nested, belongs, calls_fit, identifiers_apart, stands_in, starts_at};
use vstd::prelude::*;

verus! {

broadcast use group_child_bounds;

// ── Definitions ──────────────────────────────────────────────────────────────

/// Whether a symbol is one that a Go file can define under the steps `prefix`.
pub open spec fn is_defined(c: Ctx, prefix: Seq<DescriptorView>, s: SymbolView) -> bool {
    &&& belongs(c, prefix, s)
    &&& s.visibility == Visibility::Public || s.visibility == Visibility::Internal
    &&& stands_in(prefix, s)
    &&& starts_at(s, "main"@)
}

/// Whether all symbols are.
pub open spec fn all_defined(
    c: Ctx,
    prefix: Seq<DescriptorView>,
    symbols: Seq<SymbolView>,
) -> bool {
    forall|k: int| 0 <= k < symbols.len() ==> is_defined(c, prefix, #[trigger] symbols[k])
}

proof fn types_in_defined(c: Ctx, prefix: Seq<DescriptorView>, lo: int, hi: int)
    ensures
        all_defined(c, prefix, types_in(c, prefix, lo, hi)),
    decreases hi - lo,
{
    if lo < hi {
        types_in_defined(c, prefix, c.tree.next(lo, hi), hi);
    }
}

proof fn names_in_defined(
    c: Ctx,
    prefix: Seq<DescriptorView>,
    owner: int,
    kind: SymbolKind,
    lo: int,
    hi: int,
)
    ensures
        all_defined(c, prefix, names_in(c, prefix, owner, kind, lo, hi)),
    decreases hi - lo,
{
    if lo < hi {
        names_in_defined(c, prefix, owner, kind, c.tree.next(lo, hi), hi);
    }
}

proof fn specs_in_defined(
    c: Ctx,
    prefix: Seq<DescriptorView>,
    spec_kind: Seq<char>,
    kind: SymbolKind,
    lo: int,
    hi: int,
)
    ensures
        all_defined(c, prefix, specs_in(c, prefix, spec_kind, kind, lo, hi)),
    decreases hi - lo,
{
    if lo < hi {
        if c.tree.kind(lo) == spec_kind {
            names_in_defined(c, prefix, lo, kind, lo + 1, c.tree.after(lo));
        }
        specs_in_defined(c, prefix, spec_kind, kind, c.tree.next(lo, hi), hi);
    }
}

proof fn variables_in_defined(c: Ctx, prefix: Seq<DescriptorView>, lo: int, hi: int)
    ensures
        all_defined(c, prefix, variables_in(c, prefix, lo, hi)),
    decreases hi - lo,
{
    if lo < hi {
        if c.tree.kind(lo) == "var_spec_list"@ {
            specs_in_defined(c, prefix, "var_spec"@, SymbolKind::Static, lo + 1, c.tree.after(lo));
        } else if c.tree.kind(lo) == "var_spec"@ {
            names_in_defined(c, prefix, lo, SymbolKind::Static, lo + 1, c.tree.after(lo));
        }
        variables_in_defined(c, prefix, c.tree.next(lo, hi), hi);
    }
}

proof fn symbols_at_defined(c: Ctx, prefix: Seq<DescriptorView>, is_pkg_main: bool, i: int)
    ensures
        all_defined(c, prefix, symbols_at(c, prefix, is_pkg_main, i)),
{
    let kind = c.tree.kind(i);
    let hi = c.tree.after(i);
    if kind != "function_declaration"@ && kind != "method_declaration"@ {
        if kind == "type_declaration"@ {
            types_in_defined(c, prefix, i + 1, hi);
        } else if kind == "const_declaration"@ {
            specs_in_defined(c, prefix, "const_spec"@, SymbolKind::Const, i + 1, hi);
        } else if kind == "var_declaration"@ {
            variables_in_defined(c, prefix, i + 1, hi);
        }
    }
}

/// Each definition of a Go file names the language and the file, extends the
/// steps `prefix` without further namespaces, has an identity that ends with
/// its name, is public or internal, and is where the program starts only if
/// that name is `main`.
pub proof fn definitions_belong(
    c: Ctx,
    prefix: Seq<DescriptorView>,
    is_pkg_main: bool,
    lo: int,
    hi: int,
)
    ensures
        all_defined(c, prefix, symbols_in(c, prefix, is_pkg_main, lo, hi)),
    decreases hi - lo,
{
    if lo < hi {
        symbols_at_defined(c, prefix, is_pkg_main, lo);
        definitions_belong(c, prefix, is_pkg_main, c.tree.next(lo, hi), hi);
    }
}

// ── References ───────────────────────────────────────────────────────────────

proof fn imports_at_fit(t: Syntax, file: Seq<char>, i: int)
    ensures
        all_fit(file, imports_at(t, file, i)),
    decreases t.left(i), 0nat,
{
    if t.has(i) && t.kind(i) != "import_spec"@ {
        imports_in_fit(t, file, i + 1, t.after(i));
    }
}

proof fn imports_in_fit(t: Syntax, file: Seq<char>, lo: int, hi: int)
    ensures
        all_fit(file, imports_in(t, file, lo, hi)),
    decreases t.left(lo), 1nat,
{
    if lo < hi && t.has(lo) {
        imports_at_fit(t, file, lo);
        imports_in_fit(t, file, t.next(lo, hi), hi);
    }
}

proof fn reads_at_fit(t: Syntax, file: Seq<char>, i: int)
    ensures
        all_fit(file, reads_at(t, file, i)),
    decreases t.left(i), 0nat,
{
    if t.has(i) && t.kind(i) != "identifier"@ {
        reads_in_fit(t, file, i + 1, t.after(i));
    }
}

proof fn reads_in_fit(t: Syntax, file: Seq<char>, lo: int, hi: int)
    ensures
        all_fit(file, reads_in(t, file, lo, hi)),
    decreases t.left(lo), 1nat,
{
    if lo < hi && t.has(lo) {
        reads_at_fit(t, file, lo);
        reads_in_fit(t, file, t.next(lo, hi), hi);
    }
}

proof fn writes_to_fit(t: Syntax, file: Seq<char>, lo: int, hi: int)
    ensures
        all_fit(file, writes_to(t, file, lo, hi)),
    decreases hi - lo,
{
    if lo < hi {
        writes_to_fit(t, file, t.next(lo, hi), hi);
    }
}

proof fn assignment_writes_fit(t: Syntax, file: Seq<char>, i: int)
    ensures
        all_fit(file, assignment_writes(t, file, i)),
{
    if let Some(targets) = t.child(i, "left"@) {
        if t.kind(i) == "assignment_statement"@ {
            writes_to_fit(t, file, targets + 1, t.after(targets));
        }
    }
}

proof fn writes_at_fit(t: Syntax, file: Seq<char>, i: int)
    ensures
        all_fit(file, writes_at(t, file, i)),
    decreases t.left(i), 0nat,
{
    if t.has(i) {
        assignment_writes_fit(t, file, i);
        writes_in_fit(t, file, i + 1, t.after(i));
    }
}

proof fn writes_in_fit(t: Syntax, file: Seq<char>, lo: int, hi: int)
    ensures
        all_fit(file, writes_in(t, file, lo, hi)),
    decreases t.left(lo), 1nat,
{
    if lo < hi && t.has(lo) {
        writes_at_fit(t, file, lo);
        writes_in_fit(t, file, t.next(lo, hi), hi);
    }
}

proof fn leaves_at_fit(t: Syntax, file: Seq<char>, ctx: TypeRefContext, i: int)
    ensures
        all_fit(file, leaves_at(t, file, ctx, i)),
    decreases t.left(i), 0nat,
{
    let kind = t.kind(i);
    if t.has(i) && kind != "type_identifier"@ {
        if kind == "qualified_type"@ {
            if let Some(name) = t.child(i, "name"@) {
                leaves_at_fit(t, file, ctx, name);
            }
        } else if kind == "slice_type"@ || kind == "array_type"@ {
            if let Some(element) = t.child(i, "element"@) {
                leaves_at_fit(t, file, ctx, element);
            }
        } else if kind == "map_type"@ {
            if let Some(key) = t.child(i, "key"@) {
                leaves_at_fit(t, file, ctx, key);
            }
            if let Some(value) = t.child(i, "value"@) {
                leaves_at_fit(t, file, ctx, value);
            }
        } else if kind == "generic_type"@ {
            if let Some(base) = t.child(i, "type"@) {
                leaves_at_fit(t, file, ctx, base);
            }
            if let Some(args) = t.child(i, "type_arguments"@) {
                leaves_in_fit(t, file, TypeRefContext::GenericArg, args + 1, t.after(args));
            }
        } else if kind == "channel_type"@ {
            if let Some(value) = t.child(i, "value"@) {
                leaves_at_fit(t, file, ctx, value);
            }
        } else {
            leaves_in_fit(t, file, ctx, i + 1, t.after(i));
        }
    }
}

proof fn leaves_in_fit(t: Syntax, file: Seq<char>, ctx: TypeRefContext, lo: int, hi: int)
    ensures
        all_fit(file, leaves_in(t, file, ctx, lo, hi)),
    decreases t.left(lo), 1nat,
{
    if lo < hi && t.has(lo) {
        if t.named(lo) {
            leaves_at_fit(t, file, ctx, lo);
        }
        leaves_in_fit(t, file, ctx, t.next(lo, hi), hi);
    }
}

proof fn typed_refs_fit(t: Syntax, file: Seq<char>, ctx: TypeRefContext, i: int)
    ensures
        all_fit(file, typed_refs(t, file, ctx, i)),
{
    if let Some(ty) = t.child(i, "type"@) {
        leaves_at_fit(t, file, ctx, ty);
    }
}

proof fn results_in_fit(t: Syntax, file: Seq<char>, lo: int, hi: int)
    ensures
        all_fit(file, results_in(t, file, lo, hi)),
    decreases hi - lo,
{
    if lo < hi {
        if t.named(lo) {
            if t.kind(lo) == "parameter_declaration"@ {
                typed_refs_fit(t, file, TypeRefContext::ReturnType, lo);
            } else {
                leaves_at_fit(t, file, TypeRefContext::ReturnType, lo);
            }
        }
        results_in_fit(t, file, t.next(lo, hi), hi);
    }
}

proof fn result_refs_fit(t: Syntax, file: Seq<char>, i: int)
    ensures
        all_fit(file, result_refs(t, file, i)),
{
    if let Some(result) = t.child(i, "result"@) {
        if t.kind(result) == "parameter_list"@ {
            results_in_fit(t, file, result + 1, t.after(result));
        } else {
            leaves_at_fit(t, file, TypeRefContext::ReturnType, result);
        }
    }
}

proof fn own_type_refs_fit(t: Syntax, file: Seq<char>, i: int)
    ensures
        all_fit(file, own_type_refs(t, file, i)),
{
    let kind = t.kind(i);
    if kind == "parameter_declaration"@ || kind == "variadic_parameter_declaration"@ {
        typed_refs_fit(t, file, TypeRefContext::ParameterType, i);
    } else if kind == "function_declaration"@ || kind == "method_declaration"@ {
        result_refs_fit(t, file, i);
    } else if kind == "field_declaration"@ {
        typed_refs_fit(t, file, TypeRefContext::Field, i);
    }
}

proof fn type_refs_at_fit(t: Syntax, file: Seq<char>, i: int)
    ensures
        all_fit(file, type_refs_at(t, file, i)),
    decreases t.left(i), 0nat,
{
    if t.has(i) {
        if is_typed(t, i) {
            own_type_refs_fit(t, file, i);
        } else {
            own_type_refs_fit(t, file, i);
            type_refs_in_fit(t, file, i + 1, t.after(i));
        }
    }
}

proof fn type_refs_in_fit(t: Syntax, file: Seq<char>, lo: int, hi: int)
    ensures
        all_fit(file, type_refs_in(t, file, lo, hi)),
    decreases t.left(lo), 1nat,
{
    if lo < hi && t.has(lo) {
        type_refs_at_fit(t, file, lo);
        type_refs_in_fit(t, file, t.next(lo, hi), hi);
    }
}

/// Each reference of a Go file stands in the file. A call, a read or a write has a
/// name that is long enough, a call on the object itself has no qualifier, and only
/// a type reference says where its type stands.
pub proof fn references_fit(t: Syntax, file: Seq<char>, found: Seq<Seq<CaptureView>>)
    ensures
        all_fit(file, references_of(t, file, found)),
{
    calls_fit(t.source, file, found);
    imports_at_fit(t, file, 0);
    type_refs_at_fit(t, file, 0);
    reads_at_fit(t, file, 0);
    writes_at_fit(t, file, 0);
}

// ── Local names ──────────────────────────────────────────────────────────────

proof fn short_locals_in_nested(
    t: Syntax,
    scopes: Seq<Scope>,
    values: Option<int>,
    lo: int,
    hi: int,
    k: int,
)
    ensures
        all_nested(scopes, short_locals_in(t, scopes, values, lo, hi, k)),
    decreases hi - lo,
{
    if lo < hi {
        if t.kind(lo) == "identifier"@ {
            short_locals_in_nested(t, scopes, values, t.next(lo, hi), hi, k + 1);
        } else {
            short_locals_in_nested(t, scopes, values, t.next(lo, hi), hi, k);
        }
    }
}

proof fn ranged_in_nested(t: Syntax, scopes: Seq<Scope>, lo: int, hi: int)
    ensures
        all_nested(scopes, ranged_in(t, scopes, lo, hi)),
    decreases hi - lo,
{
    if lo < hi {
        ranged_in_nested(t, scopes, t.next(lo, hi), hi);
    }
}

proof fn param_names_in_nested(t: Syntax, scopes: Seq<Scope>, param: int, lo: int, hi: int)
    ensures
        all_nested(scopes, param_names_in(t, scopes, param, lo, hi)),
    decreases hi - lo,
{
    if lo < hi {
        param_names_in_nested(t, scopes, param, t.next(lo, hi), hi);
    }
}

proof fn params_in_nested(t: Syntax, scopes: Seq<Scope>, lo: int, hi: int)
    ensures
        all_nested(scopes, params_in(t, scopes, lo, hi)),
    decreases hi - lo,
{
    if lo < hi {
        if t.named(lo) && (t.kind(lo) == "parameter_declaration"@
            || t.kind(lo) == "variadic_parameter_declaration"@) {
            param_names_in_nested(t, scopes, lo, lo + 1, t.after(lo));
        }
        params_in_nested(t, scopes, t.next(lo, hi), hi);
    }
}

proof fn function_params_nested(t: Syntax, scopes: Seq<Scope>, i: int)
    ensures
        all_nested(scopes, function_params(t, scopes, i)),
{
    if let Some(params) = t.child(i, "parameters"@) {
        params_in_nested(t, scopes, params + 1, t.after(params));
    }
    if let Some(receiver) = t.child(i, "receiver"@) {
        params_in_nested(t, scopes, receiver + 1, t.after(receiver));
    }
}

proof fn introduced_nested(t: Syntax, scopes: Seq<Scope>, i: int)
    ensures
        all_nested(scopes, introduced(t, scopes, i)),
{
    let kind = t.kind(i);
    if kind == "function_declaration"@ || kind == "method_declaration"@ || kind == "func_literal"@ {
        function_params_nested(t, scopes, i);
    } else if kind == "short_var_declaration"@ {
        if let Some(left) = t.child(i, "left"@) {
            short_locals_in_nested(t, scopes, t.child(i, "right"@), left + 1, t.after(left), 0);
        }
    } else if kind == "range_clause"@ {
        if let Some(left) = t.child(i, "left"@) {
            ranged_in_nested(t, scopes, left + 1, t.after(left));
        }
    }
}

/// Each local name of a Go file is bound in the innermost scope at its place. One
/// that is no parameter never stands in that of the file as a whole.
pub proof fn locals_are_nested(t: Syntax, scopes: Seq<Scope>, i: int)
    ensures
        all_nested(scopes, bindings_at(t, scopes, i)),
    decreases t.left(i), 0nat,
{
    if t.has(i) {
        if is_spec(t, i) {
            spec_parts_in_nested(t, scopes, i, i + 1, t.after(i), 0);
        } else {
            introduced_nested(t, scopes, i);
            bindings_in_nested(t, scopes, i + 1, t.after(i));
        }
    }
}

proof fn spec_parts_in_nested(t: Syntax, scopes: Seq<Scope>, owner: int, lo: int, hi: int, k: int)
    ensures
        all_nested(scopes, spec_parts_in(t, scopes, owner, lo, hi, k)),
    decreases t.left(lo), 1nat,
{
    if lo < hi && t.has(lo) {
        if t.kind(lo) == "identifier"@ {
            spec_parts_in_nested(t, scopes, owner, t.next(lo, hi), hi, k + 1);
        } else {
            locals_are_nested(t, scopes, lo);
            spec_parts_in_nested(t, scopes, owner, t.next(lo, hi), hi, k);
        }
    }
}

proof fn bindings_in_nested(t: Syntax, scopes: Seq<Scope>, lo: int, hi: int)
    ensures
        all_nested(scopes, bindings_in(t, scopes, lo, hi)),
    decreases t.left(lo), 1nat,
{
    if lo < hi && t.has(lo) {
        locals_are_nested(t, scopes, lo);
        bindings_in_nested(t, scopes, t.next(lo, hi), hi);
    }
}

// ── Packages ─────────────────────────────────────────────────────────────────

/// The directory of a file, below `src/`, in pieces.
pub open spec fn package_directory(file: Seq<char>) -> Seq<Seq<char>> {
    directory(without_prefix(file, "src/"@))
}

/// The files of one directory have the same namespaces, whatever they hold; files
/// of different directories have different namespaces.
pub proof fn directory_is_package(s: Syntax, t: Syntax, a: Seq<char>, b: Seq<char>)
    requires
        package_directory(a).len() > 0,
        package_directory(b).len() > 0,
    ensures
        namespaces_of(s, a) == namespaces_of(t, b) <==> package_directory(a) == package_directory(
            b,
        ),
{
}

/// The namespaces of a file in the directory `d` are the pieces of that path, with
/// or without `src/` in front: neither the name of the file nor what it holds plays
/// a part.
pub proof fn directory_decides(s: Syntax, t: Syntax, d: Seq<char>, a: Seq<char>, b: Seq<char>)
    requires
        segments(d, '/').len() > 0,
        !has_prefix(d + "/"@, "src/"@),
        !a.contains('/'),
        !b.contains('/'),
    ensures
        namespaces_of(s, d + "/"@ + a) == segments(d, '/'),
        namespaces_of(t, "src/"@ + d + "/"@ + b) == segments(d, '/'),
{
    reveal_strlit("/");
    reveal_strlit("src/");
    let path = d + "/"@ + a;
    if has_prefix(path, "src/"@) {
        assert(path.subrange(0, 4)[3] == path[3]);
        if d.len() < 3 {
            assert(path[d.len() as int] == '/');
            assert("src/"@[d.len() as int] == path.subrange(0, 4)[d.len() as int]);
        } else {
            assert((d + "/"@).subrange(0, 4) =~= path.subrange(0, 4));
        }
    }
    last_slash(d, a);
    let whole = "src/"@ + d + "/"@ + b;
    assert(whole.subrange(0, 4) =~= "src/"@);
    assert(whole.subrange(4, whole.len() as int) =~= d + "/"@ + b);
    last_slash(d, b);
}

proof fn last_slash(d: Seq<char>, name: Seq<char>)
    requires
        !name.contains('/'),
    ensures
        last_index(d + "/"@ + name, '/', (d + "/"@ + name).len() as int) == d.len(),
        before_last(d + "/"@ + name, '/') == d,
{
    reveal_strlit("/");
    let path = d + "/"@ + name;
    last_slash_before(path, d.len() as int, path.len() as int);
    assert(path.subrange(0, d.len() as int) =~= d);
}

proof fn last_slash_before(path: Seq<char>, at: int, end: int)
    requires
        0 <= at < end <= path.len(),
        path[at] == '/',
        forall|k: int| at < k < path.len() ==> #[trigger] path[k] != '/',
    ensures
        last_index(path, '/', end) == at,
    decreases end,
{
    if end - 1 > at {
        last_slash_before(path, at, end - 1);
    }
}

/// The packages of different directories have different names in the texts of
/// identities.
pub proof fn packages_do_not_collide(s: Syntax, t: Syntax, a: Seq<char>, b: Seq<char>)
    requires
        package_directory(a).len() > 0,
        package_directory(b).len() > 0,
        package_directory(a) != package_directory(b),
    ensures
        scip_text(namespace_steps(namespaces_of(s, a))) != scip_text(
            namespace_steps(namespaces_of(t, b)),
        ),
{
    directory_is_plain(a);
    directory_is_plain(b);
    namespaces_render_apart(package_directory(a), package_directory(b));
}

proof fn directory_is_plain(file: Seq<char>)
    ensures
        all_plain(package_directory(file), '/'),
{
    let path = without_prefix(file, "src/"@);
    segments_are_plain(before_last(path, '/'), '/');
}

// ── Reads ────────────────────────────────────────────────────────────────────

/// Whether node `i` is an identifier that is long enough and stands where it is
/// read.
pub open spec fn is_read(t: Syntax, i: int) -> bool {
    t.kind(i) == "identifier"@ && reportable(t.text(i)) && !not_read(t, i)
}

/// Each identifier of a Go file that is read is reported.
pub proof fn reads_are_complete(t: Syntax, file: Seq<char>, i: int)
    requires
        t.nested(),
        t.has(0),
        identifiers_apart(t),
        0 <= i < t.after(0),
        is_read(t, i),
    ensures
        reads_at(t, file, 0).contains(reference_at(t, file, i, t.text(i), RefRole::Read)),
{
    let items = reads_of_nodes(t, file);
    reads_in_document_order(t, file, 0);
    assert(items(i)[0] == reference_at(t, file, i, t.text(i), RefRole::Read));
    in_order_each(items, 0, t.after(0), i, 0);
}

/// Each read that is reported of a Go file is an identifier that is read.
pub proof fn reads_are_sound(t: Syntax, file: Seq<char>, k: int)
    requires
        t.nested(),
        t.has(0),
        identifiers_apart(t),
        0 <= k < reads_at(t, file, 0).len(),
    ensures
        exists|i: int|
            0 <= i < t.after(0) && #[trigger] is_read(t, i) && reads_at(t, file, 0)[k]
                == reference_at(t, file, i, t.text(i), RefRole::Read),
{
    let items = reads_of_nodes(t, file);
    let is_one = |r: ReferenceView|
        exists|i: int|
            0 <= i < t.after(0) && #[trigger] is_read(t, i) && r == reference_at(
                t,
                file,
                i,
                t.text(i),
                RefRole::Read,
            );
    reads_in_document_order(t, file, 0);
    assert forall|i: int, k: int| 0 <= i < t.after(0) && 0 <= k < items(i).len() implies is_one(
        #[trigger] items(i)[k],
    ) by {
        assert(is_read(t, i));
    }
    in_order_all(items, 0, t.after(0), is_one);
    assert(is_one(reads_at(t, file, 0)[k]));
}

// ── Names that are reported once ─────────────────────────────────────────────

/// The name that a call in a Go file calls is not read as well.
pub proof fn callee_is_not_read(t: Syntax, i: int)
    requires
        t.linked(),
        t.has(i),
        t.kind(i) == "call_expression"@,
    ensures
        t.child(i, "function"@) matches Some(callee) ==> not_read(t, callee),
{
    reveal_strlit("call_expression");
    reveal_strlit("function_declaration");
    reveal_strlit("method_declaration");
    reveal_strlit("func_literal");
    reveal_strlit("const_spec");
    reveal_strlit("var_spec");
    reveal_strlit("parameter_declaration");
    reveal_strlit("variadic_parameter_declaration");
    reveal_strlit("expression_list");
    assert("call_expression"@[0] != "expression_list"@[0]);
    field_is_child(t, i, "function"@);
}

/// The names that an assignment in a Go file writes are not read as well.
pub proof fn target_is_not_read(t: Syntax, i: int, list: int, target: int)
    requires
        t.linked(),
        t.has(i),
        t.kind(i) == "assignment_statement"@,
        t.kind(list) == "expression_list"@,
        t.child(i, "left"@) == Some(list),
        t.has_child(list, target),
    ensures
        not_read(t, target),
{
    reveal_strlit("call_expression");
    reveal_strlit("function_declaration");
    reveal_strlit("method_declaration");
    reveal_strlit("func_literal");
    reveal_strlit("const_spec");
    reveal_strlit("var_spec");
    reveal_strlit("parameter_declaration");
    reveal_strlit("variadic_parameter_declaration");
    reveal_strlit("expression_list");
    assert("expression_list"@[0] != "call_expression"@[0]);
    field_is_child(t, i, "left"@);
}

} // verus!
