//! What holds of the facts of HCL files.

use crate::extract::{holds, scoped, Ctx};
use crate::extract::hcl::{
    block_head, facts_of, reference_of, references_at, references_in, references_in_document_order,
    references_of_nodes, symbol_of, symbols_in, symbols_of,
};
use crate::graph::types::{RefRole, ReferenceView, SymbolView, Visibility};
use crate::items::in_order_each;
use crate::symbol::DescriptorView;
use crate::syntax::{group_child_bounds, Syntax};
use crate::text::byte_count;
use super::belongs;
use vstd::prelude::*;

verus! {

broadcast use group_child_bounds;

// ── Definitions ──────────────────────────────────────────────────────────────

/// Whether a symbol is one that an HCL file can define under the steps `prefix`.
pub open spec fn is_defined(c: Ctx, prefix: Seq<DescriptorView>, s: SymbolView) -> bool {
    &&& belongs(c, prefix, s)
    &&& s.visibility == Visibility::Public
}

/// Whether all symbols are.
pub open spec fn all_defined(
    c: Ctx,
    prefix: Seq<DescriptorView>,
    symbols: Seq<SymbolView>,
) -> bool {
    forall|k: int| 0 <= k < symbols.len() ==> is_defined(c, prefix, #[trigger] symbols[k])
}

proof fn symbols_in_defined(c: Ctx, lo: int, hi: int)
    ensures
        all_defined(c, Seq::empty(), symbols_in(c, lo, hi)),
    decreases hi - lo,
{
    if lo < hi {
        symbols_in_defined(c, c.tree.next(lo, hi), hi);
    }
}

/// Each definition of an HCL file names the language and the file, has an
/// identity that ends with its name and is public.
pub proof fn definitions_belong(c: Ctx)
    ensures
        all_defined(c, Seq::empty(), symbols_of(c)),
{
    if let Some(body) = c.tree.named_child_of_kind(0, "body"@) {
        symbols_in_defined(c, body + 1, c.tree.after(body));
    }
}

// ── References ───────────────────────────────────────────────────────────────

/// Whether references are those of traversals in the file.
pub open spec fn all_traversals(file: Seq<char>, references: Seq<ReferenceView>) -> bool {
    forall|k: int|
        0 <= k < references.len() ==> {
            let r = #[trigger] references[k];
            &&& r.occ.file == file
            &&& r.role == RefRole::TypeRef
            &&& r.name.len() > 0
            &&& r.qualifier matches Some(q) && q.len() > 0
        }
}

/// Each reference of an HCL file stands in the file and is a type reference with a
/// name and a qualifier that are not empty.
pub proof fn references_fit(t: Syntax, file: Seq<char>, i: int)
    ensures
        all_traversals(file, references_at(t, file, i)),
    decreases t.left(i), 0nat,
{
    if t.has(i) {
        references_in_fit(t, file, i + 1, t.after(i));
    }
}

proof fn references_in_fit(t: Syntax, file: Seq<char>, lo: int, hi: int)
    ensures
        all_traversals(file, references_in(t, file, lo, hi)),
    decreases t.left(lo), 1nat,
{
    if lo < hi && t.has(lo) {
        references_fit(t, file, lo);
        references_in_fit(t, file, t.next(lo, hi), hi);
    }
}

/// Each traversal of an HCL file with two names that are not empty is reported, also
/// where it stands in another.
pub proof fn traversals_are_reported(t: Syntax, file: Seq<char>, i: int)
    requires
        t.nested(),
        t.has(0),
        0 <= i < t.after(0),
        reference_of(t, file, i).len() > 0,
    ensures
        references_at(t, file, 0).contains(reference_of(t, file, i)[0]),
{
    let items = references_of_nodes(t, file);
    references_in_document_order(t, file, 0);
    assert(items(i) == reference_of(t, file, i));
    in_order_each(items, 0, t.after(0), i, 0);
}

/// Each reference of an HCL file has the scope of the file as a whole.
pub proof fn references_have_file_scope(t: Syntax, file: Seq<char>, k: int)
    requires
        byte_count(t.source) <= usize::MAX,
        0 <= k < facts_of(t, file).references.len(),
        0 <= facts_of(t, file).references[k].occ.byte < byte_count(t.source),
    ensures
        facts_of(t, file).references[k].scope == Some(0usize),
{
    let f = facts_of(t, file);
    let r = references_at(t, file, 0)[k];
    assert(f.references[k] == scoped(f.scopes, r));
    assert(holds(f.scopes[0], r.occ.byte));
}

/// A resource and a source of data never have the same identity.
pub proof fn data_is_no_resource(c: Ctx, i: int, j: int)
    requires
        block_head(c.tree, i) matches Some((block_type, _)) && block_type == "resource"@,
        block_head(c.tree, j) matches Some((block_type, _)) && block_type == "data"@,
    ensures
        match (symbol_of(c, i), symbol_of(c, j)) {
            (Some(resource), Some(data)) => resource.id != data.id,
            _ => true,
        },
{
    reveal_strlit("resource");
    reveal_strlit("data");
    assert("data"@.len() != "resource"@.len());
    if let Some(resource) = symbol_of(c, i) {
        if let Some(data) = symbol_of(c, j) {
            assert(resource.id.len() == 2);
            assert(data.id.len() == 3);
        }
    }
}

} // verus!
