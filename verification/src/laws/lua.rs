//! What holds of the facts of Lua files.

use crate::extract::{calls, reference_at, reportable, Ctx};
use crate::extract::lua::{
    assigned_in, assignment_symbols, assignment_writes, assignments_in, bindings_at, bindings_in,
    declared_in, declares, fields_in, imports_at, imports_in, introduced, locals_in, named_symbols,
    namespaces_of, not_read, not_require, params_in, reads_at, reads_in, reads_in_document_order,
    reads_of_nodes, references_of, symbols_at, symbols_in, value_of, valued, writes_at, writes_in,
    writes_to,
};
use crate::graph::types::{RefRole, ReferenceView, Scope, SymbolView, Visibility};
use crate::items::{in_order_all, in_order_each};
use crate::parse::CaptureView;
use crate::symbol::DescriptorView;
use crate::syntax::{field_is_child, group_child_bounds, Syntax};
use crate::text::{other_suffix, own_suffix};
use super::{all_fit, all_nested, belongs, calls_fit, fits, identifiers_apart, stands_in};
use vstd::prelude::*;

verus! {

broadcast use group_child_bounds;

// ── Definitions ──────────────────────────────────────────────────────────────

/// Whether a symbol is one that a Lua file can define under the steps `prefix`.
pub open spec fn is_defined(c: Ctx, prefix: Seq<DescriptorView>, s: SymbolView) -> bool {
    &&& belongs(c, prefix, s)
    &&& s.visibility == Visibility::Unknown
    &&& stands_in(prefix, s)
}

/// Whether all symbols are.
pub open spec fn all_defined(
    c: Ctx,
    prefix: Seq<DescriptorView>,
    symbols: Seq<SymbolView>,
) -> bool {
    forall|k: int| 0 <= k < symbols.len() ==> is_defined(c, prefix, #[trigger] symbols[k])
}

proof fn fields_in_defined(c: Ctx, prefix: Seq<DescriptorView>, lo: int, hi: int)
    ensures
        all_defined(c, prefix, fields_in(c, prefix, lo, hi)),
    decreases hi - lo,
{
    if lo < hi {
        fields_in_defined(c, prefix, c.tree.next(lo, hi), hi);
    }
}

proof fn named_symbols_defined(
    c: Ctx,
    prefix: Seq<DescriptorView>,
    i: int,
    name: Seq<char>,
    value: Option<int>,
)
    ensures
        all_defined(c, prefix, named_symbols(c, prefix, i, name, value)),
{
    let t = c.tree;
    let (kind, leaf) = valued(t, name, value);
    if let Some(v) = value {
        if t.kind(v) == "table_constructor"@ {
            fields_in_defined(c, prefix + seq![leaf], v + 1, t.after(v));
        }
    }
}

proof fn assigned_in_defined(c: Ctx, prefix: Seq<DescriptorView>, i: int, lo: int, hi: int, k: int)
    ensures
        all_defined(c, prefix, assigned_in(c, prefix, i, lo, hi, k)),
    decreases hi - lo,
{
    if lo < hi {
        if c.tree.kind(lo) == "identifier"@ {
            named_symbols_defined(c, prefix, i, c.tree.text(lo), value_of(c.tree, i, k));
            assigned_in_defined(c, prefix, i, c.tree.next(lo, hi), hi, k + 1);
        } else {
            assigned_in_defined(c, prefix, i, c.tree.next(lo, hi), hi, k);
        }
    }
}

proof fn assignment_symbols_defined(c: Ctx, prefix: Seq<DescriptorView>, i: int)
    ensures
        all_defined(c, prefix, assignment_symbols(c, prefix, i)),
{
    if let Some(names) = c.tree.child_of_kind(i, "variable_list"@) {
        assigned_in_defined(c, prefix, i, names + 1, c.tree.after(names), 0);
    }
}

proof fn assignments_in_defined(c: Ctx, prefix: Seq<DescriptorView>, lo: int, hi: int)
    ensures
        all_defined(c, prefix, assignments_in(c, prefix, lo, hi)),
    decreases hi - lo,
{
    if lo < hi {
        if c.tree.kind(lo) == "assignment_statement"@ {
            assignment_symbols_defined(c, prefix, lo);
        }
        assignments_in_defined(c, prefix, c.tree.next(lo, hi), hi);
    }
}

proof fn symbols_at_defined(c: Ctx, prefix: Seq<DescriptorView>, i: int)
    ensures
        all_defined(c, prefix, symbols_at(c, prefix, i)),
{
    let kind = c.tree.kind(i);
    if kind != "function_declaration"@ {
        if kind == "variable_declaration"@ {
            assignment_symbols_defined(c, prefix, i);
            assignments_in_defined(c, prefix, i + 1, c.tree.after(i));
        } else if kind == "assignment_statement"@ {
            assignment_symbols_defined(c, prefix, i);
        }
    }
}

/// Each definition of a Lua file names the language and the file, extends the
/// steps `prefix` without further namespaces, has an identity that ends with
/// its name and is of unknown visibility.
pub proof fn definitions_belong(c: Ctx, prefix: Seq<DescriptorView>, lo: int, hi: int)
    ensures
        all_defined(c, prefix, symbols_in(c, prefix, lo, hi)),
    decreases hi - lo,
{
    if lo < hi {
        symbols_at_defined(c, prefix, lo);
        definitions_belong(c, prefix, c.tree.next(lo, hi), hi);
    }
}

// ── References ───────────────────────────────────────────────────────────────

/// Whether references fit in the file, and none is a call of `require`.
pub open spec fn all_reported(file: Seq<char>, references: Seq<ReferenceView>) -> bool {
    forall|k: int|
        0 <= k < references.len() ==> fits(file, #[trigger] references[k]) && (references[k].role
            == RefRole::Call ==> references[k].name != "require"@)
}

proof fn not_require_reported(file: Seq<char>, references: Seq<ReferenceView>, n: int)
    requires
        all_fit(file, references),
        n <= references.len(),
    ensures
        all_reported(file, not_require(references, n)),
    decreases n,
{
    if n > 0 {
        not_require_reported(file, references, n - 1);
    }
}

proof fn imports_at_fit(t: Syntax, file: Seq<char>, module: Seq<char>, i: int)
    ensures
        all_reported(file, imports_at(t, file, module, i)),
    decreases t.left(i), 0nat,
{
    if t.has(i) {
        imports_in_fit(t, file, module, i + 1, t.after(i));
    }
}

proof fn imports_in_fit(t: Syntax, file: Seq<char>, module: Seq<char>, lo: int, hi: int)
    ensures
        all_reported(file, imports_in(t, file, module, lo, hi)),
    decreases t.left(lo), 1nat,
{
    if lo < hi && t.has(lo) {
        imports_at_fit(t, file, module, lo);
        imports_in_fit(t, file, module, t.next(lo, hi), hi);
    }
}

proof fn reads_at_fit(t: Syntax, file: Seq<char>, i: int)
    ensures
        all_reported(file, reads_at(t, file, i)),
    decreases t.left(i), 0nat,
{
    if t.has(i) && t.kind(i) != "identifier"@ {
        reads_in_fit(t, file, i + 1, t.after(i));
    }
}

proof fn reads_in_fit(t: Syntax, file: Seq<char>, lo: int, hi: int)
    ensures
        all_reported(file, reads_in(t, file, lo, hi)),
    decreases t.left(lo), 1nat,
{
    if lo < hi && t.has(lo) {
        reads_at_fit(t, file, lo);
        reads_in_fit(t, file, t.next(lo, hi), hi);
    }
}

proof fn writes_to_fit(t: Syntax, file: Seq<char>, lo: int, hi: int)
    ensures
        all_reported(file, writes_to(t, file, lo, hi)),
    decreases hi - lo,
{
    if lo < hi {
        writes_to_fit(t, file, t.next(lo, hi), hi);
    }
}

proof fn assignment_writes_fit(t: Syntax, file: Seq<char>, i: int)
    ensures
        all_reported(file, assignment_writes(t, file, i)),
{
    if t.kind(i) == "assignment_statement"@ && !declares(t, i) {
        if let Some(targets) = t.child_of_kind(i, "variable_list"@) {
            writes_to_fit(t, file, targets + 1, t.after(targets));
        }
    }
}

proof fn writes_at_fit(t: Syntax, file: Seq<char>, i: int)
    ensures
        all_reported(file, writes_at(t, file, i)),
    decreases t.left(i), 0nat,
{
    if t.has(i) {
        assignment_writes_fit(t, file, i);
        writes_in_fit(t, file, i + 1, t.after(i));
    }
}

proof fn writes_in_fit(t: Syntax, file: Seq<char>, lo: int, hi: int)
    ensures
        all_reported(file, writes_in(t, file, lo, hi)),
    decreases t.left(lo), 1nat,
{
    if lo < hi && t.has(lo) {
        writes_at_fit(t, file, lo);
        writes_in_fit(t, file, t.next(lo, hi), hi);
    }
}

/// Each reference of a Lua file stands in the file. A call, a read or a write has a
/// name that is long enough, and no call is a call of `require`: those are imports.
pub proof fn references_fit(
    t: Syntax,
    file: Seq<char>,
    module: Seq<char>,
    found: Seq<Seq<CaptureView>>,
)
    ensures
        all_reported(file, references_of(t, file, module, found)),
{
    calls_fit(t.source, file, found);
    let called = calls(t.source, file, found);
    not_require_reported(file, called, called.len() as int);
    imports_at_fit(t, file, module, 0);
    reads_at_fit(t, file, 0);
    writes_at_fit(t, file, 0);
}

// ── Local names ──────────────────────────────────────────────────────────────

proof fn params_in_nested(t: Syntax, scopes: Seq<Scope>, lo: int, hi: int)
    ensures
        all_nested(scopes, params_in(t, scopes, lo, hi)),
    decreases hi - lo,
{
    if lo < hi {
        params_in_nested(t, scopes, t.next(lo, hi), hi);
    }
}

proof fn locals_in_nested(t: Syntax, scopes: Seq<Scope>, lo: int, hi: int)
    ensures
        all_nested(scopes, locals_in(t, scopes, lo, hi)),
    decreases hi - lo,
{
    if lo < hi {
        locals_in_nested(t, scopes, t.next(lo, hi), hi);
    }
}

proof fn declared_in_nested(t: Syntax, scopes: Seq<Scope>, lo: int, hi: int)
    ensures
        all_nested(scopes, declared_in(t, scopes, lo, hi)),
    decreases hi - lo,
{
    if lo < hi {
        if t.kind(lo) == "variable_list"@ {
            locals_in_nested(t, scopes, lo + 1, t.after(lo));
        } else if t.kind(lo) == "assignment_statement"@ {
            if let Some(names) = t.child_of_kind(lo, "variable_list"@) {
                locals_in_nested(t, scopes, names + 1, t.after(names));
            }
        }
        declared_in_nested(t, scopes, t.next(lo, hi), hi);
    }
}

proof fn introduced_nested(t: Syntax, scopes: Seq<Scope>, i: int)
    ensures
        all_nested(scopes, introduced(t, scopes, i)),
{
    if t.kind(i) == "function_declaration"@ || t.kind(i) == "function_definition"@ {
        if let Some(params) = t.child(i, "parameters"@) {
            params_in_nested(t, scopes, params + 1, t.after(params));
        }
    } else if t.kind(i) == "variable_declaration"@ {
        declared_in_nested(t, scopes, i + 1, t.after(i));
    }
}

/// Each local name of a Lua file is bound in the innermost scope at its place. One
/// that is no parameter never stands in that of the file as a whole.
pub proof fn locals_are_nested(t: Syntax, scopes: Seq<Scope>, i: int)
    ensures
        all_nested(scopes, bindings_at(t, scopes, i)),
    decreases t.left(i), 0nat,
{
    if t.has(i) {
        introduced_nested(t, scopes, i);
        bindings_in_nested(t, scopes, i + 1, t.after(i));
    }
}

proof fn bindings_in_nested(t: Syntax, scopes: Seq<Scope>, lo: int, hi: int)
    ensures
        all_nested(scopes, bindings_in(t, scopes, lo, hi)),
    decreases t.left(lo), 1nat,
{
    if lo < hi && t.has(lo) {
        locals_are_nested(t, scopes, lo);
        bindings_in_nested(t, scopes, t.next(lo, hi), hi);
    }
}

// ── Paired files ─────────────────────────────────────────────────────────────

/// Files of one stem have the same namespaces, whichever of the two extensions they
/// have.
pub proof fn paired_files_share_namespaces(stem: Seq<char>)
    ensures
        namespaces_of(stem + ".lua"@) == namespaces_of(stem + ".luau"@),
{
    reveal_strlit(".lua");
    reveal_strlit(".luau");
    own_suffix(stem, ".lua"@);
    own_suffix(stem, ".luau"@);
    other_suffix(stem, ".lua"@, ".luau"@, 1);
}

// ── Reads ────────────────────────────────────────────────────────────────────

/// Whether node `i` is an identifier that is long enough and stands where it is
/// read.
pub open spec fn is_read(t: Syntax, i: int) -> bool {
    t.kind(i) == "identifier"@ && reportable(t.text(i)) && !not_read(t, i)
}

/// Each identifier of a Lua file that is read is reported.
pub proof fn reads_are_complete(t: Syntax, file: Seq<char>, i: int)
    requires
        t.nested(),
        t.has(0),
        identifiers_apart(t),
        0 <= i < t.after(0),
        is_read(t, i),
    ensures
        reads_at(t, file, 0).contains(reference_at(t, file, i, t.text(i), RefRole::Read)),
{
    let items = reads_of_nodes(t, file);
    reads_in_document_order(t, file, 0);
    assert(items(i)[0] == reference_at(t, file, i, t.text(i), RefRole::Read));
    in_order_each(items, 0, t.after(0), i, 0);
}

/// Each read that is reported of a Lua file is an identifier that is read.
pub proof fn reads_are_sound(t: Syntax, file: Seq<char>, k: int)
    requires
        t.nested(),
        t.has(0),
        identifiers_apart(t),
        0 <= k < reads_at(t, file, 0).len(),
    ensures
        exists|i: int|
            0 <= i < t.after(0) && #[trigger] is_read(t, i) && reads_at(t, file, 0)[k]
                == reference_at(t, file, i, t.text(i), RefRole::Read),
{
    let items = reads_of_nodes(t, file);
    let is_one = |r: ReferenceView|
        exists|i: int|
            0 <= i < t.after(0) && #[trigger] is_read(t, i) && r == reference_at(
                t,
                file,
                i,
                t.text(i),
                RefRole::Read,
            );
    reads_in_document_order(t, file, 0);
    assert forall|i: int, k: int| 0 <= i < t.after(0) && 0 <= k < items(i).len() implies is_one(
        #[trigger] items(i)[k],
    ) by {
        assert(is_read(t, i));
    }
    in_order_all(items, 0, t.after(0), is_one);
    assert(is_one(reads_at(t, file, 0)[k]));
}

// ── Names that are reported once ─────────────────────────────────────────────

/// The name that a call in a Lua file calls is not read as well.
pub proof fn callee_is_not_read(t: Syntax, i: int)
    requires
        t.linked(),
        t.has(i),
        t.kind(i) == "function_call"@,
    ensures
        t.child(i, "name"@) matches Some(callee) ==> not_read(t, callee),
{
    reveal_strlit("function_call");
    reveal_strlit("function_declaration");
    reveal_strlit("field");
    reveal_strlit("dot_index_expression");
    reveal_strlit("method_index_expression");
    reveal_strlit("variable_list");
    reveal_strlit("parameters");
    assert("function_call"@[0] != "variable_list"@[0]);
    field_is_child(t, i, "name"@);
}

/// The names that an assignment in a Lua file writes are not read as well.
pub proof fn target_is_not_read(t: Syntax, list: int, target: int)
    requires
        t.linked(),
        t.kind(list) == "variable_list"@,
        t.has_child(list, target),
    ensures
        not_read(t, target),
{
    reveal_strlit("function_call");
    reveal_strlit("function_declaration");
    reveal_strlit("field");
    reveal_strlit("dot_index_expression");
    reveal_strlit("method_index_expression");
    reveal_strlit("variable_list");
    reveal_strlit("parameters");
    assert("variable_list"@[0] != "function_call"@[0]);
}

} // verus!
