//! What holds of the facts of C files.

use crate::extract::{is_section, reference_at, reportable, Ctx};
use crate::extract::c::{
    aliases_in, bindings_at, bindings_in, declarator_symbols, export_of, exports_of,
    function_declarator, function_params, introduced, locals_in, namespaces_of, not_read, params_in,
    reads_at, reads_in, reads_in_document_order, reads_of_nodes, references_of, symbols_at,
    symbols_in, type_refs_at, type_refs_in, writes_at, writes_in,
};
use crate::ffi::abi_of_name;
use crate::graph::types::{
    FfiExportView, RefRole, ReferenceView, Scope, SymbolKind, SymbolView, Visibility,
};
use crate::items::{in_order_all, in_order_each};
use crate::parse::CaptureView;
use crate::symbol::DescriptorView;
use crate::syntax::{field_is_child, group_child_bounds, Syntax};
use crate::text::{other_suffix, own_suffix};
use super::{all_fit, all_nested, belongs, calls_fit, identifiers_apart, stands_in, starts_at};
use vstd::prelude::*;

verus! {

broadcast use group_child_bounds;

// ── Definitions ──────────────────────────────────────────────────────────────

/// Whether a symbol is one that a C file can define under the steps `prefix`.
pub open spec fn is_defined(c: Ctx, prefix: Seq<DescriptorView>, s: SymbolView) -> bool {
    &&& belongs(c, prefix, s)
    &&& s.visibility == Visibility::Public || s.visibility == Visibility::Private
    &&& stands_in(prefix, s)
    &&& starts_at(s, "main"@)
}

/// Whether all symbols are.
pub open spec fn all_defined(
    c: Ctx,
    prefix: Seq<DescriptorView>,
    symbols: Seq<SymbolView>,
) -> bool {
    forall|k: int| 0 <= k < symbols.len() ==> is_defined(c, prefix, #[trigger] symbols[k])
}

proof fn declarator_symbols_defined(c: Ctx, prefix: Seq<DescriptorView>, i: int, lo: int, hi: int)
    ensures
        all_defined(c, prefix, declarator_symbols(c, prefix, i, lo, hi)),
    decreases hi - lo,
{
    if lo < hi {
        declarator_symbols_defined(c, prefix, i, c.tree.next(lo, hi), hi);
    }
}

proof fn aliases_in_defined(c: Ctx, prefix: Seq<DescriptorView>, i: int, lo: int, hi: int)
    ensures
        all_defined(c, prefix, aliases_in(c, prefix, i, lo, hi)),
    decreases hi - lo,
{
    if lo < hi {
        aliases_in_defined(c, prefix, i, c.tree.next(lo, hi), hi);
    }
}

proof fn symbols_at_defined(c: Ctx, prefix: Seq<DescriptorView>, i: int)
    ensures
        all_defined(c, prefix, symbols_at(c, prefix, i)),
    decreases c.tree.left(i), 0nat,
{
    let kind = c.tree.kind(i);
    if c.tree.has(i) {
        if is_section(c.tree, i) {
            definitions_belong(c, prefix, i + 1, c.tree.after(i));
        } else if kind != "function_definition"@ {
            if kind == "declaration"@ {
                declarator_symbols_defined(c, prefix, i, i + 1, c.tree.after(i));
            } else if kind == "type_definition"@ {
                aliases_in_defined(c, prefix, i, i + 1, c.tree.after(i));
            }
        }
    }
}

/// Each definition of a C file names the language and the file, extends the
/// steps `prefix` without further namespaces, has an identity that ends with
/// its name, is public or private, and is where the program starts only if that
/// name is `main`.
pub proof fn definitions_belong(c: Ctx, prefix: Seq<DescriptorView>, lo: int, hi: int)
    ensures
        all_defined(c, prefix, symbols_in(c, prefix, lo, hi)),
    decreases c.tree.left(lo), 1nat,
{
    if lo < hi && c.tree.has(lo) {
        symbols_at_defined(c, prefix, lo);
        definitions_belong(c, prefix, c.tree.next(lo, hi), hi);
    }
}

// ── References ───────────────────────────────────────────────────────────────

proof fn type_refs_at_fit(t: Syntax, file: Seq<char>, i: int)
    ensures
        all_fit(file, type_refs_at(t, file, i)),
    decreases t.left(i), 0nat,
{
    if t.has(i) {
        type_refs_in_fit(t, file, i + 1, t.after(i));
    }
}

proof fn type_refs_in_fit(t: Syntax, file: Seq<char>, lo: int, hi: int)
    ensures
        all_fit(file, type_refs_in(t, file, lo, hi)),
    decreases t.left(lo), 1nat,
{
    if lo < hi && t.has(lo) {
        type_refs_at_fit(t, file, lo);
        type_refs_in_fit(t, file, t.next(lo, hi), hi);
    }
}

proof fn reads_at_fit(t: Syntax, file: Seq<char>, i: int)
    ensures
        all_fit(file, reads_at(t, file, i)),
    decreases t.left(i), 0nat,
{
    if t.has(i) && t.kind(i) != "identifier"@ {
        reads_in_fit(t, file, i + 1, t.after(i));
    }
}

proof fn reads_in_fit(t: Syntax, file: Seq<char>, lo: int, hi: int)
    ensures
        all_fit(file, reads_in(t, file, lo, hi)),
    decreases t.left(lo), 1nat,
{
    if lo < hi && t.has(lo) {
        reads_at_fit(t, file, lo);
        reads_in_fit(t, file, t.next(lo, hi), hi);
    }
}

proof fn writes_at_fit(t: Syntax, file: Seq<char>, i: int)
    ensures
        all_fit(file, writes_at(t, file, i)),
    decreases t.left(i), 0nat,
{
    if t.has(i) {
        writes_in_fit(t, file, i + 1, t.after(i));
    }
}

proof fn writes_in_fit(t: Syntax, file: Seq<char>, lo: int, hi: int)
    ensures
        all_fit(file, writes_in(t, file, lo, hi)),
    decreases t.left(lo), 1nat,
{
    if lo < hi && t.has(lo) {
        writes_at_fit(t, file, lo);
        writes_in_fit(t, file, t.next(lo, hi), hi);
    }
}

/// Each reference of a C file stands in the file. A call, a read or a write has a
/// name that is long enough, a call on the object itself has no qualifier, and only
/// a type reference says where its type stands.
pub proof fn references_fit(t: Syntax, file: Seq<char>, found: Seq<Seq<CaptureView>>)
    ensures
        all_fit(file, references_of(t, file, found)),
{
    calls_fit(t.source, file, found);
    type_refs_at_fit(t, file, 0);
    reads_at_fit(t, file, 0);
    writes_at_fit(t, file, 0);
}

// ── Local names ──────────────────────────────────────────────────────────────

proof fn params_in_nested(t: Syntax, scopes: Seq<Scope>, lo: int, hi: int)
    ensures
        all_nested(scopes, params_in(t, scopes, lo, hi)),
    decreases hi - lo,
{
    if lo < hi {
        params_in_nested(t, scopes, t.next(lo, hi), hi);
    }
}

proof fn function_params_nested(t: Syntax, scopes: Seq<Scope>, i: int)
    ensures
        all_nested(scopes, function_params(t, scopes, i)),
{
    if let Some(d) = t.child(i, "declarator"@) {
        if let Some(f) = function_declarator(t, d) {
            if let Some(params) = t.child(f, "parameters"@) {
                params_in_nested(t, scopes, params + 1, t.after(params));
            }
        }
    }
}

proof fn locals_in_nested(t: Syntax, scopes: Seq<Scope>, lo: int, hi: int)
    ensures
        all_nested(scopes, locals_in(t, scopes, lo, hi)),
    decreases hi - lo,
{
    if lo < hi {
        locals_in_nested(t, scopes, t.next(lo, hi), hi);
    }
}

proof fn introduced_nested(t: Syntax, scopes: Seq<Scope>, i: int)
    ensures
        all_nested(scopes, introduced(t, scopes, i)),
{
    if t.kind(i) == "function_definition"@ {
        function_params_nested(t, scopes, i);
    } else if t.kind(i) == "declaration"@ {
        locals_in_nested(t, scopes, i + 1, t.after(i));
    }
}

/// Each local name of a C file is bound in the innermost scope at its place. One
/// that is no parameter never stands in that of the file as a whole.
pub proof fn locals_are_nested(t: Syntax, scopes: Seq<Scope>, i: int)
    ensures
        all_nested(scopes, bindings_at(t, scopes, i)),
    decreases t.left(i), 0nat,
{
    if t.has(i) {
        introduced_nested(t, scopes, i);
        bindings_in_nested(t, scopes, i + 1, t.after(i));
    }
}

proof fn bindings_in_nested(t: Syntax, scopes: Seq<Scope>, lo: int, hi: int)
    ensures
        all_nested(scopes, bindings_in(t, scopes, lo, hi)),
    decreases t.left(lo), 1nat,
{
    if lo < hi && t.has(lo) {
        locals_are_nested(t, scopes, lo);
        bindings_in_nested(t, scopes, t.next(lo, hi), hi);
    }
}

// ── Paired files ─────────────────────────────────────────────────────────────

/// A source file and the header with the same stem have the same namespaces.
pub proof fn paired_files_share_namespaces(stem: Seq<char>)
    ensures
        namespaces_of(stem + ".c"@) == namespaces_of(stem + ".h"@),
{
    reveal_strlit(".c");
    reveal_strlit(".h");
    own_suffix(stem, ".c"@);
    own_suffix(stem, ".h"@);
    other_suffix(stem, ".h"@, ".c"@, 1);
}

// ── Exports ──────────────────────────────────────────────────────────────────

/// Each function among symbols whose name says that another language calls it is
/// exported under that name.
pub proof fn functions_are_exported(symbols: Seq<SymbolView>, n: int, k: int)
    requires
        0 <= k < n <= symbols.len(),
        symbols[k].kind == SymbolKind::Function,
    ensures
        abi_of_name(symbols[k].name) matches Some(abi) ==> exports_of(symbols, n).contains(
            FfiExportView { symbol: symbols[k].id, abi, export_name: symbols[k].name },
        ),
    decreases n,
{
    if let Some(abi) = abi_of_name(symbols[k].name) {
        let export = FfiExportView { symbol: symbols[k].id, abi, export_name: symbols[k].name };
        let before = exports_of(symbols, n - 1);
        if k == n - 1 {
            assert(exports_of(symbols, n)[before.len() as int] == export);
        } else {
            functions_are_exported(symbols, n - 1, k);
            let at = choose|at: int| 0 <= at < before.len() && before[at] == export;
            assert(exports_of(symbols, n)[at] == export);
        }
    }
}

/// Each export is a function among the symbols whose name says so.
pub proof fn exports_are_functions(symbols: Seq<SymbolView>, n: int, at: int)
    requires
        n <= symbols.len(),
        0 <= at < exports_of(symbols, n).len(),
    ensures
        ({
            let e = exports_of(symbols, n)[at];
            exists|k: int|
                0 <= k < n && (#[trigger] symbols[k]).kind == SymbolKind::Function
                    && symbols[k].id == e.symbol && symbols[k].name == e.export_name
                    && abi_of_name(symbols[k].name) == Some(e.abi)
        }),
    decreases n,
{
    if n > 0 {
        let before = exports_of(symbols, n - 1);
        if at < before.len() {
            exports_are_functions(symbols, n - 1, at);
            assert(exports_of(symbols, n)[at] == before[at]);
        } else {
            assert(exports_of(symbols, n)[at] == export_of(symbols[n - 1])[at - before.len()]);
        }
    }
}

// ── Reads ────────────────────────────────────────────────────────────────────

/// Whether node `i` is an identifier that is long enough and stands where it is
/// read.
pub open spec fn is_read(t: Syntax, i: int) -> bool {
    t.kind(i) == "identifier"@ && reportable(t.text(i)) && !not_read(t, i)
}

/// Each identifier of a C file that is read is reported.
pub proof fn reads_are_complete(t: Syntax, file: Seq<char>, i: int)
    requires
        t.nested(),
        t.has(0),
        identifiers_apart(t),
        0 <= i < t.after(0),
        is_read(t, i),
    ensures
        reads_at(t, file, 0).contains(reference_at(t, file, i, t.text(i), RefRole::Read)),
{
    let items = reads_of_nodes(t, file);
    reads_in_document_order(t, file, 0);
    assert(items(i)[0] == reference_at(t, file, i, t.text(i), RefRole::Read));
    in_order_each(items, 0, t.after(0), i, 0);
}

/// Each read that is reported of a C file is an identifier that is read.
pub proof fn reads_are_sound(t: Syntax, file: Seq<char>, k: int)
    requires
        t.nested(),
        t.has(0),
        identifiers_apart(t),
        0 <= k < reads_at(t, file, 0).len(),
    ensures
        exists|i: int|
            0 <= i < t.after(0) && #[trigger] is_read(t, i) && reads_at(t, file, 0)[k]
                == reference_at(t, file, i, t.text(i), RefRole::Read),
{
    let items = reads_of_nodes(t, file);
    let is_one = |r: ReferenceView|
        exists|i: int|
            0 <= i < t.after(0) && #[trigger] is_read(t, i) && r == reference_at(
                t,
                file,
                i,
                t.text(i),
                RefRole::Read,
            );
    reads_in_document_order(t, file, 0);
    assert forall|i: int, k: int| 0 <= i < t.after(0) && 0 <= k < items(i).len() implies is_one(
        #[trigger] items(i)[k],
    ) by {
        assert(is_read(t, i));
    }
    in_order_all(items, 0, t.after(0), is_one);
    assert(is_one(reads_at(t, file, 0)[k]));
}

// ── Names that are reported once ─────────────────────────────────────────────

/// The name that a call in a C file calls is not read as well.
pub proof fn callee_is_not_read(t: Syntax, i: int)
    requires
        t.linked(),
        t.has(i),
        t.kind(i) == "call_expression"@,
    ensures
        t.child(i, "function"@) matches Some(callee) ==> not_read(t, callee),
{
    reveal_strlit("call_expression");
    reveal_strlit("pointer_declarator");
    reveal_strlit("function_declarator");
    reveal_strlit("init_declarator");
    reveal_strlit("array_declarator");
    reveal_strlit("declaration");
    reveal_strlit("type_definition");
    reveal_strlit("function_definition");
    reveal_strlit("parameter_declaration");
    reveal_strlit("attributed_declarator");
    reveal_strlit("parenthesized_declarator");
    reveal_strlit("assignment_expression");
    assert("call_expression"@[0] != "init_declarator"@[0]);
    assert("call_expression"@[0] != "type_definition"@[0]);
    field_is_child(t, i, "function"@);
}

/// The name that an assignment in a C file writes is not read as well.
pub proof fn target_is_not_read(t: Syntax, i: int)
    requires
        t.linked(),
        t.has(i),
        t.kind(i) == "assignment_expression"@,
    ensures
        t.child(i, "left"@) matches Some(target) ==> not_read(t, target),
{
    reveal_strlit("call_expression");
    reveal_strlit("pointer_declarator");
    reveal_strlit("function_declarator");
    reveal_strlit("init_declarator");
    reveal_strlit("array_declarator");
    reveal_strlit("declaration");
    reveal_strlit("type_definition");
    reveal_strlit("function_definition");
    reveal_strlit("parameter_declaration");
    reveal_strlit("attributed_declarator");
    reveal_strlit("parenthesized_declarator");
    reveal_strlit("assignment_expression");
    assert("assignment_expression"@[0] != "parameter_declaration"@[0]);
    assert("assignment_expression"@[1] != "attributed_declarator"@[1]);
    field_is_child(t, i, "left"@);
}

} // verus!
