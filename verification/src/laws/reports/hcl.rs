//! What the facts of HCL files tell of their nodes.

use crate::extract::hcl::{
    block_symbol, facts_of, labels_in, reference_of, references_at,
    references_in_document_order, references_of_nodes, symbols_at, symbols_in, symbols_of,
};
use crate::extract::{Ctx, definitions_bound};
use crate::graph::types::{BindingView, RefRole, ReferenceView, SymbolKind, SymbolView};
use crate::items::in_order_each;
use crate::lang::Language;
use crate::symbol::{DescriptorView, namespace_steps};
use crate::syntax::{Syntax, first_named_is_child, group_child_bounds};
use crate::text::unquoted;
use super::bound::{
    binds_definition, bound_has_origin, definition_is_bound, has_origin, is_scoped,
    place_is_scoped,
};
use super::{
    defines_under, in_either, is_reported, reached_is_behind, refers_through, reported,
    starts_with,
};
use vstd::prelude::*;

verus! {

broadcast use group_child_bounds;

/// What the definitions of a file are read from.
spec fn context(t: Syntax, file: Seq<char>) -> Ctx {
    Ctx { tree: t, file, lang: Language::Hcl }
}

proof fn labels_in_kinds()
    ensures
        "string_lit"@ != "identifier"@,
{
    reveal_strlit("string_lit");
    reveal_strlit("identifier");
    assert("string_lit"@[0] != "identifier"@[0]);
}

proof fn ends_labels_kinds()
    ensures
        "string_lit"@ != "block_start"@,
        "string_lit"@ != "body"@,
        "string_lit"@ != "block_end"@,
        "string_lit"@ != "object_start"@,
        "string_lit"@ != "object_end"@,
        "identifier"@ != "block_start"@,
        "identifier"@ != "body"@,
        "identifier"@ != "block_end"@,
        "identifier"@ != "object_start"@,
        "identifier"@ != "object_end"@,
{
    reveal_strlit("string_lit");
    reveal_strlit("block_start");
    reveal_strlit("body");
    reveal_strlit("block_end");
    reveal_strlit("object_start");
    reveal_strlit("object_end");
    reveal_strlit("identifier");
    assert("string_lit"@.len() != "block_start"@.len());
    assert("string_lit"@.len() != "body"@.len());
    assert("string_lit"@.len() != "block_end"@.len());
    assert("string_lit"@.len() != "object_start"@.len());
    assert("string_lit"@[0] != "object_end"@[0]);
    assert("identifier"@.len() != "block_start"@.len());
    assert("identifier"@.len() != "body"@.len());
    assert("identifier"@.len() != "block_end"@.len());
    assert("identifier"@.len() != "object_start"@.len());
    assert("identifier"@[0] != "object_end"@[0]);
}

proof fn symbol_of_kinds()
    ensures
        "resource"@ != "data"@,
        "resource"@ != "module"@,
        "data"@ != "module"@,
{
    reveal_strlit("resource");
    reveal_strlit("data");
    reveal_strlit("module");
    assert("resource"@.len() != "data"@.len());
    assert("resource"@.len() != "module"@.len());
    assert("data"@.len() != "module"@.len());
}

proof fn references_reported(t: Syntax, file: Seq<char>, i: int, r: ReferenceView)
    requires
        t.nested(),
        0 <= i < t.after(0),
        reference_of(t, file, i).contains(r),
    ensures
        reported(facts_of(t, file), r),
{
    references_in_document_order(t, file, 0);
    let k = choose|k: int| 0 <= k < reference_of(t, file, i).len()
        && reference_of(t, file, i)[k] == r;
    in_order_each(references_of_nodes(t, file), 0, t.after(0), i, k);
    assert(references_at(t, file, 0).contains(r));
    is_reported(facts_of(t, file), references_at(t, file, 0), r);
}

proof fn symbols_in_has(c: Ctx, lo: int, hi: int, j: int, x: SymbolView)
    requires
        0 <= lo,
        hi <= c.tree.len(),
        c.tree.reaches(lo, hi, j),
        symbols_at(c, j).contains(x),
    ensures
        symbols_in(c, lo, hi).contains(x),
    decreases hi - lo,
{
    let own = symbols_at(c, lo);
    let rest = symbols_in(c, c.tree.next(lo, hi), hi);
    if j != lo {
        symbols_in_has(c, c.tree.next(lo, hi), hi, j, x);
    }
    in_either(own, rest, x);
}

/// Whether a node is a label.
pub open spec fn is_label(t: Syntax, i: int) -> bool {
    t.kind(i) == "string_lit"@ || t.kind(i) == "identifier"@
}

/// Whether a node ends the labels of a block.
pub open spec fn is_end(t: Syntax, i: int) -> bool {
    ||| t.kind(i) == "block_start"@
    ||| t.kind(i) == "body"@
    ||| t.kind(i) == "block_end"@
    ||| t.kind(i) == "object_start"@
    ||| t.kind(i) == "object_end"@
}

/// Whether `a` is the first label of the block `i` behind node `from`: only nodes that
/// are no labels and do not end them stand between.
pub open spec fn labels(t: Syntax, i: int, from: int, a: int) -> bool {
    &&& t.has_child(i, a)
    &&& from < a
    &&& t.named(a)
    &&& is_label(t, a)
    &&& forall|e: int| #[trigger] t.has_child(i, e) && from < e < a && t.named(e)
        ==> !is_label(t, e) && !is_end(t, e)
}

/// What a label says: a string without its quotes, or a name.
pub open spec fn says(t: Syntax, a: int) -> Seq<char> {
    if t.kind(a) == "string_lit"@ {
        unquoted(t.text(a))
    } else {
        t.text(a)
    }
}

proof fn label_is_first(t: Syntax, lo: int, hi: int, a: int)
    requires
        t.reaches(lo, hi, a),
        t.named(a),
        is_label(t, a),
        forall|e: int| #[trigger] t.reaches(lo, hi, e) && e < a && t.named(e)
            ==> !is_label(t, e) && !is_end(t, e),
    ensures
        labels_in(t, lo, hi) == seq![says(t, a)] + labels_in(t, t.next(a, hi), hi),
    decreases hi - lo,
{
    labels_in_kinds();
    ends_labels_kinds();
    if lo != a {
        reached_is_behind(t, t.next(lo, hi), hi, a);
        assert(t.reaches(lo, hi, lo));
        assert forall|e: int| #[trigger] t.reaches(t.next(lo, hi), hi, e) && e < a && t.named(e) implies !is_label(t, e) && !is_end(t, e) by {
            assert(t.reaches(lo, hi, e));
        }
        label_is_first(t, t.next(lo, hi), hi, a);
    }
}

proof fn way_goes_on(t: Syntax, lo: int, hi: int, a: int, b: int)
    requires
        t.reaches(lo, hi, a),
        t.reaches(lo, hi, b),
        a < b,
    ensures
        t.reaches(t.next(a, hi), hi, b),
    decreases hi - lo,
{
    if lo != a {
        if lo == b {
            reached_is_behind(t, t.next(lo, hi), hi, a);
        }
        way_goes_on(t, t.next(lo, hi), hi, a, b);
    }
}

proof fn way_came_from(t: Syntax, lo: int, hi: int, a: int, b: int)
    requires
        t.reaches(lo, hi, a),
        t.reaches(t.next(a, hi), hi, b),
    ensures
        t.reaches(lo, hi, b),
    decreases hi - lo,
{
    if lo != a {
        way_came_from(t, t.next(lo, hi), hi, a, b);
    }
}

proof fn labels_go_on(t: Syntax, i: int, from: int, a: int)
    requires
        t.has(i),
        t.has_child(i, from),
        labels(t, i, from, a),
    ensures
        labels_in(t, t.next(from, t.after(i)), t.after(i)) == seq![says(t, a)]
            + labels_in(t, t.next(a, t.after(i)), t.after(i)),
{
    let hi = t.after(i);
    way_goes_on(t, i + 1, hi, from, a);
    assert forall|e: int| #[trigger] t.reaches(t.next(from, hi), hi, e) && e < a && t.named(e) implies !is_label(t, e) && !is_end(t, e) by {
        way_came_from(t, i + 1, hi, from, e);
        reached_is_behind(t, t.next(from, hi), hi, e);
        assert(t.has_child(i, e));
    }
    label_is_first(t, t.next(from, hi), hi, a);
}

/// A resource block with two labels in the body of an HCL file is a resource
/// with the second label as its name, under the first.
pub proof fn resources_are_defined(
    t: Syntax,
    file: Seq<char>,
    body: int,
    i: int,
    first: int,
    a: int,
    b: int,
)
    requires
        t.named_child_of_kind(0, "body"@) == Some(body),
        t.has_child(body, i),
        t.named(i),
        t.kind(i) == "block"@,
        t.named_child(i) == Some(first),
        t.kind(first) == "identifier"@,
        t.text(first) == "resource"@,
        labels(t, i, first, a),
        labels(t, i, a, b),
    ensures
        defines_under(
            facts_of(t, file),
            t,
            i,
            says(t, b),
            SymbolKind::Resource,
            namespace_steps(seq![says(t, a)]) + seq![DescriptorView::Type(says(t, b))],
        ),
{
    symbol_of_kinds();
    let c = context(t, file);
    reached_is_behind(t, body + 1, t.after(body), i);
    first_named_is_child(t, i);
    labels_go_on(t, i, first, a);
    labels_go_on(t, i, a, b);
    let rest = labels_in(t, t.next(first, t.after(i)), t.after(i));
    assert(rest[0] == says(t, a));
    assert(rest[1] == says(t, b));
    let x = block_symbol(c, i, SymbolKind::Resource, seq![says(t, a)], says(t, b));
    assert(symbols_at(c, i)[0] == x);
    symbols_in_has(c, body + 1, t.after(body), i, x);
    starts_with(facts_of(t, file).symbols, symbols_of(c), x);
}

/// A data block with two labels in the body of an HCL file is a resource with
/// the second label as its name, under `data` and the first.
pub proof fn data_sources_are_defined(
    t: Syntax,
    file: Seq<char>,
    body: int,
    i: int,
    first: int,
    a: int,
    b: int,
)
    requires
        t.named_child_of_kind(0, "body"@) == Some(body),
        t.has_child(body, i),
        t.named(i),
        t.kind(i) == "block"@,
        t.named_child(i) == Some(first),
        t.kind(first) == "identifier"@,
        t.text(first) == "data"@,
        labels(t, i, first, a),
        labels(t, i, a, b),
    ensures
        defines_under(
            facts_of(t, file),
            t,
            i,
            says(t, b),
            SymbolKind::Resource,
            namespace_steps(seq!["data"@, says(t, a)]) + seq![DescriptorView::Type(says(t, b))],
        ),
{
    symbol_of_kinds();
    let c = context(t, file);
    reached_is_behind(t, body + 1, t.after(body), i);
    first_named_is_child(t, i);
    labels_go_on(t, i, first, a);
    labels_go_on(t, i, a, b);
    let rest = labels_in(t, t.next(first, t.after(i)), t.after(i));
    assert(rest[0] == says(t, a));
    assert(rest[1] == says(t, b));
    let x = block_symbol(c, i, SymbolKind::Resource, seq!["data"@, says(t, a)], says(t, b));
    assert(symbols_at(c, i)[0] == x);
    symbols_in_has(c, body + 1, t.after(body), i, x);
    starts_with(facts_of(t, file).symbols, symbols_of(c), x);
}

/// A module block with a label in the body of an HCL file is a module with the
/// label as its name, under `module`.
pub proof fn modules_are_defined(t: Syntax, file: Seq<char>, body: int, i: int, first: int, a: int)
    requires
        t.named_child_of_kind(0, "body"@) == Some(body),
        t.has_child(body, i),
        t.named(i),
        t.kind(i) == "block"@,
        t.named_child(i) == Some(first),
        t.kind(first) == "identifier"@,
        t.text(first) == "module"@,
        labels(t, i, first, a),
    ensures
        defines_under(
            facts_of(t, file),
            t,
            i,
            says(t, a),
            SymbolKind::Module,
            namespace_steps(seq!["module"@]) + seq![DescriptorView::Type(says(t, a))],
        ),
{
    symbol_of_kinds();
    let c = context(t, file);
    reached_is_behind(t, body + 1, t.after(body), i);
    first_named_is_child(t, i);
    labels_go_on(t, i, first, a);
    assert(labels_in(t, t.next(first, t.after(i)), t.after(i))[0] == says(t, a));
    let x = block_symbol(c, i, SymbolKind::Module, seq!["module"@], says(t, a));
    assert(symbols_at(c, i)[0] == x);
    symbols_in_has(c, body + 1, t.after(body), i, x);
    starts_with(facts_of(t, file).symbols, symbols_of(c), x);
}

/// An expression that starts with a variable and takes an attribute of it
/// refers to the first attribute, qualified by the variable.
pub proof fn attributes_are_referred_to(
    t: Syntax,
    file: Seq<char>,
    i: int,
    first: int,
    attr: int,
    v: int,
    n: int,
)
    requires
        t.nested(),
        0 <= i < t.after(0),
        t.kind(i) == "expression"@,
        t.named_child(i) == Some(first),
        t.kind(first) == "variable_expr"@,
        t.named_child_of_kind(i, "get_attr"@) == Some(attr),
        t.named_child_of_kind(first, "identifier"@) == Some(v),
        t.named_child_of_kind(attr, "identifier"@) == Some(n),
        t.text(v).len() > 0,
        t.text(n).len() > 0,
    ensures
        refers_through(facts_of(t, file), t, first, t.text(n), RefRole::TypeRef, t.text(v)),
{
    let x = reference_of(t, file, i)[0];
    assert(reference_of(t, file, i)[0] == x);
    references_reported(t, file, i, x);
}

// ── All names and places ─────────────────────────────────────────────────────

/// The facts of a file name the file and its language.
pub proof fn facts_name_their_file(t: Syntax, file: Seq<char>)
    ensures
        facts_of(t, file).file == file,
        facts_of(t, file).lang == Language::Hcl.tag(),
{
}

/// Each reference has the last scope of the file that holds its place.
pub proof fn references_have_innermost_scopes(t: Syntax, file: Seq<char>, k: int)
    requires
        0 <= k < facts_of(t, file).references.len(),
    ensures
        is_scoped(facts_of(t, file).scopes, facts_of(t, file).references[k]),
{
    place_is_scoped(facts_of(t, file).scopes, facts_of(t, file).references[k]);
}

/// Each definition of a file, but for that of its module, is bound in the scope
/// of the file as a whole.
pub proof fn definitions_are_bound(t: Syntax, file: Seq<char>, k: int)
    requires
        0 <= k < facts_of(t, file).symbols.len() - 1,
    ensures
        binds_definition(facts_of(t, file), facts_of(t, file).symbols[k]),
{
    let f = facts_of(t, file);
    let locals = Seq::empty();
    let defs = symbols_of(Ctx { tree: t, file, lang: Language::Hcl });
    let imported: Seq<BindingView> = Seq::empty();
    assert(f.bindings =~= locals + definitions_bound(defs) + imported);
    assert(f.symbols[k] == defs[k]);
    definition_is_bound(f, locals, defs, imported, k);
}

/// Each name that a file binds is that of a definition or of an import of the
/// file, or is bound to itself in the innermost scope at its place.
pub proof fn bindings_have_origins(t: Syntax, file: Seq<char>, k: int)
    requires
        0 <= k < facts_of(t, file).bindings.len(),
    ensures
        has_origin(facts_of(t, file), facts_of(t, file).bindings[k]),
{
    let f = facts_of(t, file);
    let locals = Seq::empty();
    let defs = symbols_of(Ctx { tree: t, file, lang: Language::Hcl });
    let imported: Seq<BindingView> = Seq::empty();
    assert(f.bindings =~= locals + definitions_bound(defs) + imported);
    bound_has_origin(f, locals, defs, imported, k);
}

} // verus!
