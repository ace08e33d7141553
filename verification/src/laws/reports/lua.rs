//! What the facts of Lua files tell of their nodes.

use crate::extract::lua::{
    assigned_in, assignment_symbols, assignment_writes, assignments_in, bindings_at,
    bindings_in, bindings_in_document_order, bindings_of_nodes, bound_at, declared_in, facts_of,
    field_symbols, fields_in, import_of, imports_at, imports_in_document_order,
    imports_of_nodes, introduced, locals_in, named_symbols, namespaces_of, not_read,
    not_require, nth_value, params_in, read_of, reads_at, reads_in_document_order,
    reads_of_nodes, references_of, scopes_with, scopes_with_all, string_arg_in, string_text,
    symbols_at, symbols_in, value_of, valued, write_to, writes_at, writes_in_document_order,
    writes_of_nodes, writes_to,
};
use crate::extract::{
    Ctx, at_file_level, calls, definitions_bound, extends, imports_bound, local_binding,
    module_scope, module_view, occurrence_at, reference_at, span_at,
};
use crate::graph::types::{
    BindingKind, BindingView, RefRole, ReferenceView, Scope, ScopeId, ScopeKind, SymbolKind,
    SymbolView, Visibility,
};
use crate::items::{in_order_all, in_order_each};
use crate::lang::Language;
use crate::laws::lua::{definitions_belong, is_defined, is_read, locals_are_nested, reads_are_sound};
use crate::laws::{belongs, identifiers_apart};
use crate::parse::CaptureView;
use crate::symbol::{DescriptorView, method_view, namespace_steps, scip_text};
use crate::syntax::{Syntax, field_is_child, group_child_bounds};
use crate::text::{
    after_last, byte_count, has_prefix, one_line, other_suffix, own_suffix, text_between,
};
use super::bound::{
    binds_definition, binds_import, bound_has_origin, definition_is_bound, has_origin,
    imported_is_bound, is_scoped, place_is_scoped,
};
use super::calls::{call_is_found, calls_name, captures, lacks, plain_call};
use super::texts::{are_parts, join, joined_comes_apart, prefix_comes_off};
use super::{
    binds, child_stands_in_field, defines_as, defines_in, defines_under, earlier_ends_before,
    extends_module, file_level_is_outside, imports, in_either, is_at, is_module, is_reported,
    local_is_bound, long_enough, opens_scope, opens_scope_stays, outside_code,
    reached_is_behind, refers, reported, scope_is_within, starts_with,
};
use vstd::prelude::*;

verus! {

broadcast use group_child_bounds;

/// The text of the module of a file.
spec fn own_module(lang: Language, t: Syntax, file: Seq<char>) -> Seq<char> {
    scip_text(module_view(lang, namespaces_of(file), file, byte_count(t.source) as int).id)
}

/// What the definitions of a file are read from.
spec fn context(lang: Language, t: Syntax, file: Seq<char>) -> Ctx {
    Ctx { tree: t, file, lang }
}

/// The steps that lead to the definitions of a file.
spec fn steps(lang: Language, t: Syntax, file: Seq<char>) -> Seq<DescriptorView> {
    namespace_steps(namespaces_of(file))
}

proof fn function_symbols_kinds()
    ensures
        "dot_index_expression"@ != "identifier"@,
        "dot_index_expression"@ != "method_index_expression"@,
        "method_index_expression"@ != "identifier"@,
{
    reveal_strlit("dot_index_expression");
    reveal_strlit("identifier");
    reveal_strlit("method_index_expression");
    assert("dot_index_expression"@.len() != "identifier"@.len());
    assert("dot_index_expression"@.len() != "method_index_expression"@.len());
    assert("method_index_expression"@.len() != "identifier"@.len());
}

proof fn symbols_at_kinds()
    ensures
        "type_definition"@ != "function_declaration"@,
        "type_definition"@ != "variable_declaration"@,
        "type_definition"@ != "assignment_statement"@,
        "variable_declaration"@ != "function_declaration"@,
        "variable_declaration"@ != "assignment_statement"@,
        "assignment_statement"@ != "function_declaration"@,
{
    reveal_strlit("type_definition");
    reveal_strlit("function_declaration");
    reveal_strlit("variable_declaration");
    reveal_strlit("assignment_statement");
    assert("type_definition"@.len() != "function_declaration"@.len());
    assert("type_definition"@.len() != "variable_declaration"@.len());
    assert("type_definition"@.len() != "assignment_statement"@.len());
    assert("variable_declaration"@[0] != "function_declaration"@[0]);
    assert("variable_declaration"@[0] != "assignment_statement"@[0]);
    assert("assignment_statement"@[0] != "function_declaration"@[0]);
}

proof fn introduced_kinds()
    ensures
        "variable_declaration"@ != "function_declaration"@,
        "variable_declaration"@ != "function_definition"@,
        "assignment_statement"@ != "function_declaration"@,
        "assignment_statement"@ != "function_definition"@,
        "assignment_statement"@ != "variable_declaration"@,
{
    reveal_strlit("variable_declaration");
    reveal_strlit("function_declaration");
    reveal_strlit("function_definition");
    reveal_strlit("assignment_statement");
    assert("variable_declaration"@[0] != "function_declaration"@[0]);
    assert("variable_declaration"@.len() != "function_definition"@.len());
    assert("assignment_statement"@[0] != "function_declaration"@[0]);
    assert("assignment_statement"@.len() != "function_definition"@.len());
    assert("assignment_statement"@[0] != "variable_declaration"@[0]);
}

proof fn declared_in_kinds()
    ensures
        "variable_declaration"@ != "variable_list"@,
        "variable_declaration"@ != "assignment_statement"@,
        "assignment_statement"@ != "variable_list"@,
{
    reveal_strlit("variable_declaration");
    reveal_strlit("variable_list");
    reveal_strlit("assignment_statement");
    assert("variable_declaration"@.len() != "variable_list"@.len());
    assert("variable_declaration"@[0] != "assignment_statement"@[0]);
    assert("assignment_statement"@.len() != "variable_list"@.len());
}

proof fn scopes_with_kinds()
    ensures
        "function_declaration"@ != "function_definition"@,
        "function_declaration"@ != "block"@,
        "function_definition"@ != "block"@,
{
    reveal_strlit("function_declaration");
    reveal_strlit("function_definition");
    reveal_strlit("block");
    assert("function_declaration"@.len() != "function_definition"@.len());
    assert("function_declaration"@.len() != "block"@.len());
    assert("function_definition"@.len() != "block"@.len());
}

proof fn imports_reported(
    lang: Language,
    t: Syntax,
    file: Seq<char>,
    found: Seq<Seq<CaptureView>>,
    i: int,
    r: ReferenceView,
)
    requires
        t.nested(),
        0 <= i < t.after(0),
        import_of(t, file, own_module(lang, t, file), i).contains(r),
    ensures
        reported(facts_of(lang, t, file, found), r),
{
    imports_in_document_order(t, file, own_module(lang, t, file), 0);
    let k = choose|k: int| 0 <= k < import_of(t, file, own_module(lang, t, file), i).len()
        && import_of(t, file, own_module(lang, t, file), i)[k] == r;
    in_order_each(imports_of_nodes(t, file, own_module(lang, t, file)), 0, t.after(0), i, k);
    assert(imports_at(t, file, own_module(lang, t, file), 0).contains(r));
    let called = calls(t.source, file, found);
    in_either(
        not_require(called, called.len() as int),
        imports_at(t, file, own_module(lang, t, file), 0),
        r,
    );
    in_either(
        not_require(called, called.len() as int)
            + imports_at(t, file, own_module(lang, t, file), 0),
        reads_at(t, file, 0),
        r,
    );
    in_either(
        not_require(called, called.len() as int)
            + imports_at(t, file, own_module(lang, t, file), 0) + reads_at(t, file, 0),
        writes_at(t, file, 0),
        r,
    );
    is_reported(
        facts_of(lang, t, file, found),
        references_of(t, file, own_module(lang, t, file), found),
        r,
    );
}

proof fn reads_reported(
    lang: Language,
    t: Syntax,
    file: Seq<char>,
    found: Seq<Seq<CaptureView>>,
    i: int,
    r: ReferenceView,
)
    requires
        t.nested(),
        0 <= i < t.after(0),
        forall|j: int, k: int| t.has(j) && t.kind(j) == "identifier"@
            && j < k < #[trigger] t.after(j)
            ==> #[trigger] t.kind(k) != "identifier"@,
        read_of(t, file, i).contains(r),
    ensures
        reported(facts_of(lang, t, file, found), r),
{
    reads_in_document_order(t, file, 0);
    let k = choose|k: int| 0 <= k < read_of(t, file, i).len() && read_of(t, file, i)[k] == r;
    in_order_each(reads_of_nodes(t, file), 0, t.after(0), i, k);
    assert(reads_at(t, file, 0).contains(r));
    let called = calls(t.source, file, found);
    in_either(
        not_require(called, called.len() as int)
            + imports_at(t, file, own_module(lang, t, file), 0),
        reads_at(t, file, 0),
        r,
    );
    in_either(
        not_require(called, called.len() as int)
            + imports_at(t, file, own_module(lang, t, file), 0) + reads_at(t, file, 0),
        writes_at(t, file, 0),
        r,
    );
    is_reported(
        facts_of(lang, t, file, found),
        references_of(t, file, own_module(lang, t, file), found),
        r,
    );
}

proof fn writes_reported(
    lang: Language,
    t: Syntax,
    file: Seq<char>,
    found: Seq<Seq<CaptureView>>,
    i: int,
    r: ReferenceView,
)
    requires
        t.nested(),
        0 <= i < t.after(0),
        assignment_writes(t, file, i).contains(r),
    ensures
        reported(facts_of(lang, t, file, found), r),
{
    writes_in_document_order(t, file, 0);
    let k = choose|k: int| 0 <= k < assignment_writes(t, file, i).len()
        && assignment_writes(t, file, i)[k] == r;
    in_order_each(writes_of_nodes(t, file), 0, t.after(0), i, k);
    assert(writes_at(t, file, 0).contains(r));
    let called = calls(t.source, file, found);
    in_either(
        not_require(called, called.len() as int)
            + imports_at(t, file, own_module(lang, t, file), 0) + reads_at(t, file, 0),
        writes_at(t, file, 0),
        r,
    );
    is_reported(
        facts_of(lang, t, file, found),
        references_of(t, file, own_module(lang, t, file), found),
        r,
    );
}

proof fn bindings_reported(
    lang: Language,
    t: Syntax,
    file: Seq<char>,
    found: Seq<Seq<CaptureView>>,
    i: int,
    b: BindingView,
)
    requires
        t.nested(),
        0 <= i < t.after(0),
        introduced(t, facts_of(lang, t, file, found).scopes, i).contains(b),
    ensures
        facts_of(lang, t, file, found).bindings.contains(b),
{
    let scopes = facts_of(lang, t, file, found).scopes;
    bindings_in_document_order(t, scopes, 0);
    let k = choose|k: int| 0 <= k < introduced(t, scopes, i).len()
        && introduced(t, scopes, i)[k] == b;
    in_order_each(bindings_of_nodes(t, scopes), 0, t.after(0), i, k);
    assert(bindings_at(t, scopes, 0).contains(b));
    starts_with(
        facts_of(lang, t, file, found).bindings,
        bindings_at(t, facts_of(lang, t, file, found).scopes, 0),
        b,
    );
}

proof fn fields_in_has(c: Ctx, prefix: Seq<DescriptorView>, lo: int, hi: int, j: int, x: SymbolView)
    requires
        0 <= lo,
        hi <= c.tree.len(),
        c.tree.reaches(lo, hi, j),
        field_symbols(c, prefix, j).contains(x),
    ensures
        fields_in(c, prefix, lo, hi).contains(x),
    decreases hi - lo,
{
    let own = field_symbols(c, prefix, lo);
    let rest = fields_in(c, prefix, c.tree.next(lo, hi), hi);
    if j != lo {
        fields_in_has(c, prefix, c.tree.next(lo, hi), hi, j, x);
    }
    in_either(own, rest, x);
}

proof fn assignments_in_has(
    c: Ctx,
    prefix: Seq<DescriptorView>,
    lo: int,
    hi: int,
    j: int,
    x: SymbolView,
)
    requires
        0 <= lo,
        hi <= c.tree.len(),
        c.tree.reaches(lo, hi, j),
        ((if c.tree.kind(j) == "assignment_statement"@ { assignment_symbols(c, prefix, j) } else { Seq::empty() })).contains(
            x,
        ),
    ensures
        assignments_in(c, prefix, lo, hi).contains(x),
    decreases hi - lo,
{
    let own = (if c.tree.kind(lo) == "assignment_statement"@ { assignment_symbols(c, prefix, lo) } else { Seq::empty() });
    let rest = assignments_in(c, prefix, c.tree.next(lo, hi), hi);
    if j != lo {
        assignments_in_has(c, prefix, c.tree.next(lo, hi), hi, j, x);
    }
    in_either(own, rest, x);
}

proof fn symbols_in_has(
    c: Ctx,
    prefix: Seq<DescriptorView>,
    lo: int,
    hi: int,
    j: int,
    x: SymbolView,
)
    requires
        0 <= lo,
        hi <= c.tree.len(),
        c.tree.reaches(lo, hi, j),
        symbols_at(c, prefix, j).contains(x),
    ensures
        symbols_in(c, prefix, lo, hi).contains(x),
    decreases hi - lo,
{
    let own = symbols_at(c, prefix, lo);
    let rest = symbols_in(c, prefix, c.tree.next(lo, hi), hi);
    if j != lo {
        symbols_in_has(c, prefix, c.tree.next(lo, hi), hi, j, x);
    }
    in_either(own, rest, x);
}

proof fn writes_to_has(t: Syntax, file: Seq<char>, lo: int, hi: int, j: int, x: ReferenceView)
    requires
        0 <= lo,
        hi <= t.len(),
        t.reaches(lo, hi, j),
        write_to(t, file, j).contains(x),
    ensures
        writes_to(t, file, lo, hi).contains(x),
    decreases hi - lo,
{
    let own = write_to(t, file, lo);
    let rest = writes_to(t, file, t.next(lo, hi), hi);
    if j != lo {
        writes_to_has(t, file, t.next(lo, hi), hi, j, x);
    }
    in_either(own, rest, x);
}

proof fn params_in_has(t: Syntax, scopes: Seq<Scope>, lo: int, hi: int, j: int, x: BindingView)
    requires
        0 <= lo,
        hi <= t.len(),
        t.reaches(lo, hi, j),
        ((if t.named(j) { bound_at(t, scopes, j, BindingKind::Param) } else { Seq::empty() })).contains(
            x,
        ),
    ensures
        params_in(t, scopes, lo, hi).contains(x),
    decreases hi - lo,
{
    let own = (if t.named(lo) { bound_at(t, scopes, lo, BindingKind::Param) } else { Seq::empty() });
    let rest = params_in(t, scopes, t.next(lo, hi), hi);
    if j != lo {
        params_in_has(t, scopes, t.next(lo, hi), hi, j, x);
    }
    in_either(own, rest, x);
}

proof fn locals_in_has(t: Syntax, scopes: Seq<Scope>, lo: int, hi: int, j: int, x: BindingView)
    requires
        0 <= lo,
        hi <= t.len(),
        t.reaches(lo, hi, j),
        bound_at(t, scopes, j, BindingKind::Local).contains(x),
    ensures
        locals_in(t, scopes, lo, hi).contains(x),
    decreases hi - lo,
{
    let own = bound_at(t, scopes, lo, BindingKind::Local);
    let rest = locals_in(t, scopes, t.next(lo, hi), hi);
    if j != lo {
        locals_in_has(t, scopes, t.next(lo, hi), hi, j, x);
    }
    in_either(own, rest, x);
}

proof fn declared_in_has(t: Syntax, scopes: Seq<Scope>, lo: int, hi: int, j: int, x: BindingView)
    requires
        0 <= lo,
        hi <= t.len(),
        t.reaches(lo, hi, j),
        ((if t.kind(j) == "variable_list"@ { locals_in(t, scopes, j + 1, t.after(j)) } else if t.kind(j) == "assignment_statement"@ { match t.child_of_kind(j, "variable_list"@) { Some(names) => locals_in(t, scopes, names + 1, t.after(names)), None => Seq::empty(), } } else { Seq::empty() })).contains(
            x,
        ),
    ensures
        declared_in(t, scopes, lo, hi).contains(x),
    decreases hi - lo,
{
    let own = (if t.kind(lo) == "variable_list"@ { locals_in(t, scopes, lo + 1, t.after(lo)) } else if t.kind(lo) == "assignment_statement"@ { match t.child_of_kind(lo, "variable_list"@) { Some(names) => locals_in(t, scopes, names + 1, t.after(names)), None => Seq::empty(), } } else { Seq::empty() });
    let rest = declared_in(t, scopes, t.next(lo, hi), hi);
    if j != lo {
        declared_in_has(t, scopes, t.next(lo, hi), hi, j, x);
    }
    in_either(own, rest, x);
}

/// A function with a plain name at the top of a Lua file is a function.
pub proof fn functions_are_defined(
    lang: Language,
    t: Syntax,
    file: Seq<char>,
    found: Seq<Seq<CaptureView>>,
    i: int,
    n: int,
)
    requires
        t.has_child(0, i),
        t.kind(i) == "function_declaration"@,
        t.child(i, "name"@) == Some(n),
        t.kind(n) == "identifier"@,
    ensures
        defines_as(
            facts_of(lang, t, file, found),
            t,
            i,
            t.text(n),
            SymbolKind::Function,
            Visibility::Unknown,
        ),
{
    let c = context(lang, t, file);
    let prefix = steps(lang, t, file);
    let x = symbols_at(c, prefix, i)[0];
    assert(symbols_at(c, prefix, i).contains(x));
    symbols_in_has(c, prefix, 1, t.after(0), i, x);
    starts_with(facts_of(lang, t, file, found).symbols, symbols_in(c, prefix, 1, t.after(0)), x);
}

/// A function with the name of a field or a method of a table at the top of a
/// Lua file is a method under that name.
pub proof fn methods_are_defined(
    lang: Language,
    t: Syntax,
    file: Seq<char>,
    found: Seq<Seq<CaptureView>>,
    i: int,
    d: int,
    table: int,
    n: int,
)
    requires
        t.has_child(0, i),
        t.kind(i) == "function_declaration"@,
        t.child(i, "name"@) == Some(d),
        t.child(d, "table"@) == Some(table),
        (t.kind(d) == "dot_index_expression"@ && t.child(d, "field"@) == Some(n))
            || (t.kind(d) == "method_index_expression"@ && t.child(d, "method"@) == Some(n)),
    ensures
        defines_as(
            facts_of(lang, t, file, found),
            t,
            i,
            t.text(n),
            SymbolKind::Method,
            Visibility::Unknown,
        ),
        defines_under(
            facts_of(lang, t, file, found),
            t,
            i,
            t.text(n),
            SymbolKind::Method,
            namespace_steps(namespaces_of(file))
                + seq![DescriptorView::Type(t.text(table)), DescriptorView::Method { name: t.text(n), disambiguator: Seq::empty() }],
        ),
{
    function_symbols_kinds();
    let c = context(lang, t, file);
    let prefix = steps(lang, t, file);
    let x = symbols_at(c, prefix, i)[0];
    assert(x.id =~= prefix + seq![DescriptorView::Type(t.text(table)), method_view(t.text(n))]);
    assert(symbols_at(c, prefix, i).contains(x));
    symbols_in_has(c, prefix, 1, t.after(0), i, x);
    starts_with(facts_of(lang, t, file, found).symbols, symbols_in(c, prefix, 1, t.after(0)), x);
}

/// A type definition with a name at the top of a Lua file is an alias.
pub proof fn aliases_are_defined(
    lang: Language,
    t: Syntax,
    file: Seq<char>,
    found: Seq<Seq<CaptureView>>,
    i: int,
    n: int,
)
    requires
        t.has_child(0, i),
        t.kind(i) == "type_definition"@,
        t.child(i, "name"@) == Some(n),
    ensures
        defines_as(
            facts_of(lang, t, file, found),
            t,
            i,
            t.text(n),
            SymbolKind::TypeAlias,
            Visibility::Unknown,
        ),
{
    symbols_at_kinds();
    let c = context(lang, t, file);
    let prefix = steps(lang, t, file);
    let x = symbols_at(c, prefix, i)[0];
    assert(symbols_at(c, prefix, i).contains(x));
    symbols_in_has(c, prefix, 1, t.after(0), i, x);
    starts_with(facts_of(lang, t, file, found).symbols, symbols_in(c, prefix, 1, t.after(0)), x);
}

/// The number of identifiers among the siblings `lo..hi` before node `n`.
pub open spec fn rank(t: Syntax, lo: int, hi: int, n: int) -> int
    decreases hi - lo,
{
    if lo >= hi || lo >= n {
        0
    } else {
        (if t.kind(lo) == "identifier"@ { 1int } else { 0 }) + rank(t, t.next(lo, hi), hi, n)
    }
}

/// Whether a node of a list is a value.
pub open spec fn is_value(t: Syntax, v: int) -> bool {
    t.kind(v) != ","@ && t.kind(v) != " "@
}

/// The number of values among the siblings `lo..hi` before node `v`.
pub open spec fn place(t: Syntax, lo: int, hi: int, v: int) -> int
    decreases hi - lo,
{
    if lo >= hi || lo >= v {
        0
    } else {
        (if is_value(t, lo) { 1int } else { 0 }) + place(t, t.next(lo, hi), hi, v)
    }
}

/// Whether a node is the value of a list at a place.
pub open spec fn is_placed(t: Syntax, values: int, k: int, v: int) -> bool {
    t.has_child(values, v) && is_value(t, v) && place(t, values + 1, t.after(values), v) == k
}

/// Whether node `i` assigns to the identifier `n`, and the value `v` where one stands
/// at the same place of the list of values.
pub open spec fn assigns(t: Syntax, i: int, n: int, v: Option<int>) -> bool {
    t.child_of_kind(i, "variable_list"@) matches Some(names) && t.has_child(names, n) && t.kind(n) == "identifier"@ && match (t.child_of_kind(i, "expression_list"@), v) {
        (Some(values), Some(v)) => is_placed(t, values, rank(t, names + 1, t.after(names), n), v),
        (Some(values), None) => forall|e: int| !#[trigger] is_placed(
            t,
            values,
            rank(t, names + 1, t.after(names), n),
            e,
        ),
        (None, Some(_)) => false,
        (None, None) => true,
    }
}

proof fn placed_is_nth(t: Syntax, lo: int, hi: int, k: int, v: int)
    requires
        t.reaches(lo, hi, v),
        is_value(t, v),
        place(t, lo, hi, v) == k,
    ensures
        nth_value(t, lo, hi, k) == Some(v),
    decreases hi - lo,
{
    if lo != v {
        let next = t.next(lo, hi);
        reached_is_behind(t, next, hi, v);
        placed_is_nth(t, next, hi, if is_value(t, lo) { k - 1 } else { k }, v);
        place_is_natural(t, next, hi, v);
    }
}

proof fn place_is_natural(t: Syntax, lo: int, hi: int, v: int)
    ensures
        place(t, lo, hi, v) >= 0,
    decreases hi - lo,
{
    if lo < hi && lo < v {
        place_is_natural(t, t.next(lo, hi), hi, v);
    }
}

proof fn nth_is_placed(t: Syntax, lo: int, hi: int, k: int)
    requires
        k >= 0,
    ensures
        nth_value(t, lo, hi, k) matches Some(v)
            ==> t.reaches(lo, hi, v) && is_value(t, v) && place(t, lo, hi, v) == k,
    decreases hi - lo,
{
    if lo < hi {
        let next = t.next(lo, hi);
        if !is_value(t, lo) {
            nth_is_placed(t, next, hi, k);
        } else if k > 0 {
            nth_is_placed(t, next, hi, k - 1);
        }
        if let Some(v) = nth_value(t, lo, hi, k) {
            if !(is_value(t, lo) && k == 0) {
                reached_is_behind(t, next, hi, v);
            }
        }
    }
}

proof fn rank_is_natural(t: Syntax, lo: int, hi: int, n: int)
    ensures
        rank(t, lo, hi, n) >= 0,
    decreases hi - lo,
{
    if lo < hi && lo < n {
        rank_is_natural(t, t.next(lo, hi), hi, n);
    }
}

/// Whether node `a` is an assignment at the top of a file, or that of a declaration
/// there.
pub open spec fn at_top(t: Syntax, i: int, a: int) -> bool {
    t.has_child(0, i)
        && (((t.kind(i) == "assignment_statement"@ || t.kind(i) == "variable_declaration"@) && a == i) || (t.kind(i) == "variable_declaration"@ && t.has_child(i, a) && t.kind(a) == "assignment_statement"@))
}

/// What a name with a value is.
pub open spec fn sort_of(t: Syntax, v: Option<int>) -> SymbolKind {
    match v {
        Some(v) => if t.kind(v) == "function_definition"@ {
            SymbolKind::Function
        } else if t.kind(v) == "table_constructor"@ {
            SymbolKind::Module
        } else {
            SymbolKind::Static
        },
        None => SymbolKind::Static,
    }
}

proof fn assigned_is_among(
    c: Ctx,
    prefix: Seq<DescriptorView>,
    a: int,
    lo: int,
    hi: int,
    k: int,
    n: int,
    x: SymbolView,
)
    requires
        c.tree.reaches(lo, hi, n),
        c.tree.kind(n) == "identifier"@,
        named_symbols(c, prefix, a, c.tree.text(n), value_of(c.tree, a, k + rank(c.tree, lo, hi, n))).contains(
            x,
        ),
    ensures
        assigned_in(c, prefix, a, lo, hi, k).contains(x),
    decreases hi - lo,
{
    let t = c.tree;
    let next = t.next(lo, hi);
    let named = t.kind(lo) == "identifier"@;
    let k2: int = if named { k + 1 } else { k };
    if lo != n {
        reached_is_behind(t, next, hi, n);
        assigned_is_among(c, prefix, a, next, hi, k2, n, x);
    }
    if named {
        in_either(
            named_symbols(c, prefix, a, t.text(lo), value_of(t, a, k)),
            assigned_in(c, prefix, a, next, hi, k + 1),
            x,
        );
    }
}

proof fn assignment_is_defined(
    c: Ctx,
    prefix: Seq<DescriptorView>,
    i: int,
    a: int,
    n: int,
    v: Option<int>,
    x: SymbolView,
)
    requires
        at_top(c.tree, i, a),
        assigns(c.tree, a, n, v),
        named_symbols(c, prefix, a, c.tree.text(n), v).contains(x),
    ensures
        symbols_in(c, prefix, 1, c.tree.after(0)).contains(x),
{
    symbols_at_kinds();
    let t = c.tree;
    let names = t.child_of_kind(a, "variable_list"@)->0;
    reached_is_behind(t, 1, t.after(0), i);
    if a != i {
        reached_is_behind(t, i + 1, t.after(i), a);
    }
    assert(value_of(t, a, rank(t, names + 1, t.after(names), n)) == v) by {
        let k = rank(t, names + 1, t.after(names), n);
        rank_is_natural(t, names + 1, t.after(names), n);
        if let Some(values) = t.child_of_kind(a, "expression_list"@) {
            nth_is_placed(t, values + 1, t.after(values), k);
            if let Some(e) = v {
                placed_is_nth(t, values + 1, t.after(values), k, e);
            } else if let Some(e) = nth_value(t, values + 1, t.after(values), k) {
                assert(is_placed(t, values, k, e));
            }
        }
    }
    assigned_is_among(c, prefix, a, names + 1, t.after(names), 0, n, x);
    if a != i {
        assignments_in_has(c, prefix, i + 1, t.after(i), a, x);
    }
    in_either(assignment_symbols(c, prefix, i), assignments_in(c, prefix, i + 1, t.after(i)), x);
    symbols_in_has(c, prefix, 1, t.after(0), i, x);
}

/// Each name that an assignment or a declaration at the top of a Lua file
/// assigns to is defined: as a function, a module or a static variable, as the
/// value at the same place is a function, a table or anything else.
pub proof fn assigned_names_are_defined(
    lang: Language,
    t: Syntax,
    file: Seq<char>,
    found: Seq<Seq<CaptureView>>,
    i: int,
    a: int,
    n: int,
    v: Option<int>,
)
    requires
        at_top(t, i, a),
        assigns(t, a, n, v),
    ensures
        defines_as(
            facts_of(lang, t, file, found),
            t,
            a,
            t.text(n),
            sort_of(t, v),
            Visibility::Unknown,
        ),
{
    let c = context(lang, t, file);
    let prefix = steps(lang, t, file);
    let x = named_symbols(c, prefix, a, t.text(n), v)[0];
    assert(named_symbols(c, prefix, a, t.text(n), v).contains(x));
    assignment_is_defined(c, prefix, i, a, n, v, x);
    starts_with(facts_of(lang, t, file, found).symbols, symbols_in(c, prefix, 1, t.after(0)), x);
}

/// Each field with a name of a table that is assigned to a name at the top of a
/// Lua file is defined: as a method where its value is a function, as a static
/// variable otherwise.
pub proof fn fields_are_defined(
    lang: Language,
    t: Syntax,
    file: Seq<char>,
    found: Seq<Seq<CaptureView>>,
    i: int,
    a: int,
    n: int,
    v: int,
    e: int,
    m: int,
)
    requires
        at_top(t, i, a),
        assigns(t, a, n, Some(v)),
        t.has(v),
        t.kind(v) == "table_constructor"@,
        t.has_child(v, e),
        t.kind(e) == "field"@,
        t.child(e, "name"@) == Some(m),
    ensures
        defines_as(
            facts_of(lang, t, file, found),
            t,
            e,
            t.text(m),
            (if t.child(e, "value"@) matches Some(w) && t.kind(w) == "function_definition"@ { SymbolKind::Method } else { SymbolKind::Static }),
            Visibility::Unknown,
        ),
        defines_in(
            facts_of(lang, t, file, found),
            t,
            a,
            e,
            t.text(m),
            (if t.child(e, "value"@) matches Some(w) && t.kind(w) == "function_definition"@ { SymbolKind::Method } else { SymbolKind::Static }),
        ),
{
    let c = context(lang, t, file);
    let prefix = steps(lang, t, file);
    let x = field_symbols(c, prefix + seq![valued(t, t.text(n), Some(v)).1], e)[0];
    let leaf = valued(t, t.text(n), Some(v)).1;
    let at = prefix + seq![leaf];
    assert(field_symbols(c, at, e).contains(x));
    fields_in_has(c, at, v + 1, t.after(v), e, x);
    let own = named_symbols(c, prefix, a, t.text(n), Some(v));
    let first = seq![own[0]];
    assert(own =~= first + fields_in(c, at, v + 1, t.after(v)));
    in_either(first, fields_in(c, at, v + 1, t.after(v)), x);
    assignment_is_defined(c, prefix, i, a, n, Some(v), x);
    let outer = own[0];
    assert(own.contains(outer));
    assignment_is_defined(c, prefix, i, a, n, Some(v), outer);
    starts_with(facts_of(lang, t, file, found).symbols, symbols_in(c, prefix, 1, t.after(0)), x);
    starts_with(
        facts_of(lang, t, file, found).symbols,
        symbols_in(c, prefix, 1, t.after(0)),
        outer,
    );
    assert(x.id =~= outer.id.push(x.id.last()));
}

/// An assignment that is no declaration writes each identifier in its list of
/// variables.
pub proof fn assignments_write(
    lang: Language,
    t: Syntax,
    file: Seq<char>,
    found: Seq<Seq<CaptureView>>,
    i: int,
    list: int,
    n: int,
)
    requires
        t.nested(),
        0 <= i < t.after(0),
        t.kind(i) == "assignment_statement"@,
        t.parent(i) matches Some(p) ==> t.kind(p) != "variable_declaration"@,
        t.child_of_kind(i, "variable_list"@) == Some(list),
        t.has_child(list, n),
        t.kind(n) == "identifier"@,
        long_enough(t.text(n)),
    ensures
        refers(facts_of(lang, t, file, found), t, n, t.text(n), RefRole::Write),
{
    let w = reference_at(t, file, n, t.text(n), RefRole::Write);
    assert(write_to(t, file, n)[0] == w);
    writes_to_has(t, file, list + 1, t.after(list), n, w);
    let x = reference_at(t, file, n, t.text(n), RefRole::Write);
    writes_reported(lang, t, file, found, i, x);
}

/// An identifier is read unless it is called, the name of a function or a
/// field, behind a dot or a colon, a parameter, or in a list of variables.
pub proof fn values_are_read(
    lang: Language,
    t: Syntax,
    file: Seq<char>,
    found: Seq<Seq<CaptureView>>,
    i: int,
    p: int,
)
    requires
        t.nested(),
        0 <= i < t.after(0),
        t.kind(i) == "identifier"@,
        long_enough(t.text(i)),
        t.parent(i) == Some(p),
        !t.in_field(i, "name"@),
        !(t.in_field(i, "field"@) && t.kind(p) == "dot_index_expression"@),
        !(t.in_field(i, "method"@) && t.kind(p) == "method_index_expression"@),
        t.kind(p) != "variable_list"@,
        t.kind(p) != "parameters"@,
        forall|j: int, k: int| t.has(j) && t.kind(j) == "identifier"@
            && j < k < #[trigger] t.after(j)
            ==> #[trigger] t.kind(k) != "identifier"@,
    ensures
        refers(facts_of(lang, t, file, found), t, i, t.text(i), RefRole::Read),
{
    child_stands_in_field(t, p, "name"@);
    child_stands_in_field(t, p, "field"@);
    child_stands_in_field(t, p, "method"@);
    let x = reference_at(t, file, i, t.text(i), RefRole::Read);
    assert(read_of(t, file, i)[0] == x);
    reads_reported(lang, t, file, found, i, x);
}

/// Each parameter of a function with a name that is long enough is bound in the
/// innermost scope at its place, be the function declared or a value.
pub proof fn parameters_are_bound(
    lang: Language,
    t: Syntax,
    file: Seq<char>,
    found: Seq<Seq<CaptureView>>,
    i: int,
    list: int,
    n: int,
)
    requires
        t.nested(),
        0 <= i < t.after(0),
        t.kind(i) == "function_declaration"@ || t.kind(i) == "function_definition"@,
        t.child(i, "parameters"@) == Some(list),
        t.has_child(list, n),
        t.named(n),
        t.kind(n) == "identifier"@,
        long_enough(t.text(n)),
        !outside_code(facts_of(lang, t, file, found).scopes, t.start(n)),
        facts_of(lang, t, file, found).scopes.len() <= usize::MAX,
    ensures
        binds(facts_of(lang, t, file, found), t.text(n), t.start(n), BindingKind::Param),
{
    if at_file_level(facts_of(lang, t, file, found).scopes, t.start(n)) {
        file_level_is_outside(facts_of(lang, t, file, found).scopes, t.start(n));
    }
    let b = local_binding(
        facts_of(lang, t, file, found).scopes,
        t.text(n),
        t.start(n),
        BindingKind::Param,
        None,
    );
    assert(bound_at(t, facts_of(lang, t, file, found).scopes, n, BindingKind::Param)[0] == b);
    params_in_has(t, facts_of(lang, t, file, found).scopes, list + 1, t.after(list), n, b);
    let scopes = facts_of(lang, t, file, found).scopes;
    let x = local_binding(scopes, t.text(n), t.start(n), BindingKind::Param, None);
    bindings_reported(lang, t, file, found, i, x);
    local_is_bound(facts_of(lang, t, file, found), t.text(n), t.start(n), BindingKind::Param, None);
}

/// Each variable that is declared inside a function and has a name that is long
/// enough is bound in the innermost scope at its place, whether it gets a value
/// or not.
pub proof fn locals_are_bound(
    lang: Language,
    t: Syntax,
    file: Seq<char>,
    found: Seq<Seq<CaptureView>>,
    i: int,
    d: int,
    list: int,
    n: int,
)
    requires
        t.nested(),
        0 <= i < t.after(0),
        t.kind(i) == "variable_declaration"@,
        t.has_child(i, d),
        (t.kind(d) == "variable_list"@ && list == d)
            || (t.kind(d) == "assignment_statement"@ && t.child_of_kind(d, "variable_list"@) == Some(list)),
        t.has_child(list, n),
        t.kind(n) == "identifier"@,
        long_enough(t.text(n)),
        !outside_code(facts_of(lang, t, file, found).scopes, t.start(n)),
        facts_of(lang, t, file, found).scopes.len() <= usize::MAX,
    ensures
        binds(facts_of(lang, t, file, found), t.text(n), t.start(n), BindingKind::Local),
{
    introduced_kinds();
    declared_in_kinds();
    if at_file_level(facts_of(lang, t, file, found).scopes, t.start(n)) {
        file_level_is_outside(facts_of(lang, t, file, found).scopes, t.start(n));
    }
    let b = local_binding(
        facts_of(lang, t, file, found).scopes,
        t.text(n),
        t.start(n),
        BindingKind::Local,
        None,
    );
    reached_is_behind(t, i + 1, t.after(i), d);
    assert(bound_at(t, facts_of(lang, t, file, found).scopes, n, BindingKind::Local)[0] == b);
    locals_in_has(t, facts_of(lang, t, file, found).scopes, list + 1, t.after(list), n, b);
    declared_in_has(t, facts_of(lang, t, file, found).scopes, i + 1, t.after(i), d, b);
    let scopes = facts_of(lang, t, file, found).scopes;
    let x = local_binding(scopes, t.text(n), t.start(n), BindingKind::Local, None);
    bindings_reported(lang, t, file, found, i, x);
    local_is_bound(facts_of(lang, t, file, found), t.text(n), t.start(n), BindingKind::Local, None);
}

proof fn first_string(t: Syntax, lo: int, hi: int, s: int)
    requires
        t.reaches(lo, hi, s),
        t.kind(s) == "string"@,
        t.child_of_kind(s, "string_content"@) is Some,
        forall|e: int| #[trigger] t.reaches(lo, hi, e) && e < s ==> t.kind(e) != "string"@,
    ensures
        string_arg_in(t, lo, hi) == Some(string_text(t, s)),
    decreases hi - lo,
{
    if lo != s {
        reached_is_behind(t, t.next(lo, hi), hi, s);
        assert(t.reaches(lo, hi, lo));
        assert forall|e: int| #[trigger] t.reaches(t.next(lo, hi), hi, e) && e < s implies t.kind(e) != "string"@ by {
            assert(t.reaches(lo, hi, e));
        }
        first_string(t, t.next(lo, hi), hi, s);
    }
}

proof fn no_string(t: Syntax, lo: int, hi: int)
    requires
        forall|e: int| #[trigger] t.reaches(lo, hi, e) ==> t.kind(e) != "string"@,
    ensures
        string_arg_in(t, lo, hi) is None,
    decreases hi - lo,
{
    if lo < hi {
        assert(t.reaches(lo, hi, lo));
        assert forall|e: int| #[trigger] t.reaches(t.next(lo, hi), hi, e) implies t.kind(e) != "string"@ by {
            assert(t.reaches(lo, hi, e));
        }
        no_string(t, t.next(lo, hi), hi);
    }
}

/// A call of `require` with a string imports the last piece of the text in it,
/// from that text.
pub proof fn required_modules_are_imported(
    lang: Language,
    t: Syntax,
    file: Seq<char>,
    found: Seq<Seq<CaptureView>>,
    i: int,
    n: int,
    args: int,
    s: int,
    e: int,
)
    requires
        t.nested(),
        0 <= i < t.after(0),
        t.kind(i) == "function_call"@,
        t.child(i, "name"@) == Some(n),
        t.kind(n) == "identifier"@,
        t.text(n) == "require"@,
        t.child(i, "arguments"@) == Some(args),
        t.has_child(args, s),
        t.kind(s) == "string"@,
        t.child_of_kind(s, "string_content"@) == Some(e),
        forall|b: int| #[trigger] t.has_child(args, b) && b < s ==> t.kind(b) != "string"@,
        after_last(t.text(e), '.').len() > 0,
    ensures
        imports(facts_of(lang, t, file, found), t, n, after_last(t.text(e), '.'), Some(t.text(e))),
{
    assert forall|b: int| #[trigger] t.reaches(args + 1, t.after(args), b) && b < s implies t.kind(b) != "string"@ by {
        assert(t.has_child(args, b));
    }
    first_string(t, args + 1, t.after(args), s);
    let x = import_of(t, file, own_module(lang, t, file), i)[0];
    assert(import_of(t, file, own_module(lang, t, file), i)[0] == x);
    imports_reported(lang, t, file, found, i, x);
}

/// A call of `require` with a chain of names and no string imports the last
/// piece of the chain, from the chain.
pub proof fn required_instances_are_imported(
    lang: Language,
    t: Syntax,
    file: Seq<char>,
    found: Seq<Seq<CaptureView>>,
    i: int,
    n: int,
    args: int,
    d: int,
)
    requires
        t.nested(),
        0 <= i < t.after(0),
        t.kind(i) == "function_call"@,
        t.child(i, "name"@) == Some(n),
        t.kind(n) == "identifier"@,
        t.text(n) == "require"@,
        t.child(i, "arguments"@) == Some(args),
        t.has(args),
        t.child_of_kind(args, "dot_index_expression"@) == Some(d),
        forall|b: int| #[trigger] t.has_child(args, b) ==> t.kind(b) != "string"@,
        after_last(t.text(d), '.').len() > 0,
    ensures
        imports(facts_of(lang, t, file, found), t, n, after_last(t.text(d), '.'), Some(t.text(d))),
{
    assert forall|b: int| #[trigger] t.reaches(args + 1, t.after(args), b) implies t.kind(b) != "string"@ by {
        assert(t.has_child(args, b));
    }
    no_string(t, args + 1, t.after(args));
    let x = import_of(t, file, own_module(lang, t, file), i)[0];
    assert(import_of(t, file, own_module(lang, t, file), i)[0] == x);
    imports_reported(lang, t, file, found, i, x);
}

// ── Scopes ───────────────────────────────────────────────────────────────────

/// Whether a node opens a scope for what stands in it.
pub open spec fn is_holder(t: Syntax, k: int) -> bool {
    ||| t.kind(k) == "function_declaration"@
    ||| t.kind(k) == "function_definition"@
}

/// The kind of the scope that a node opens.
pub open spec fn scope_kind(t: Syntax, k: int) -> ScopeKind {
    if t.kind(k) == "function_declaration"@ || t.kind(k) == "function_definition"@ {
        ScopeKind::Function
    } else {
        ScopeKind::Block
    }
}

/// Whether a node is the body of a holder.
pub open spec fn is_held(t: Syntax, k: int) -> bool {
    exists|p: int| #![trigger t.child(p, "body"@)] 0 <= p < k && is_holder(t, p)
        && t.child(p, "body"@) == Some(k)
}

/// Whether a node opens a scope of its own: a holder, or a block that is not the
/// body of one.
pub open spec fn opens(t: Syntax, k: int) -> bool {
    (is_holder(t, k) || t.kind(k) == "block"@) && !is_held(t, k)
}

/// Whether node `j` stands in the body of the holder `k`.
pub open spec fn is_inside(t: Syntax, k: int, j: int) -> bool {
    t.child(k, "body"@) matches Some(b) && b < j < t.after(b)
}

/// Whether `outer` is the innermost node from `from` on that opens a scope around
/// node `j`.
pub open spec fn is_nearest(t: Syntax, from: int, j: int, outer: Option<int>) -> bool {
    match outer {
        Some(a) => from <= a < j && j < t.after(a) && opens(t, a) && forall|k: int| a < k < j
            && j < #[trigger] t.after(k)
            ==> !opens(t, k),
        None => forall|k: int| from <= k < j && j < #[trigger] t.after(k) ==> !opens(t, k),
    }
}

proof fn scopes_are_kept(t: Syntax, i: int, parent: ScopeId, scopes: Seq<Scope>)
    ensures
        extends(scopes_with(t, i, parent, scopes), scopes),
        t.has(i) && (is_holder(t, i) || t.kind(i) == "block"@)
            ==> extends(
                scopes_with(t, i, parent, scopes),
                scopes.push(
                    Scope { parent: Some(parent), span: span_at(t, i), kind: scope_kind(t, i) },
                ),
            ),
    decreases t.left(i), 0nat,
{
    if t.has(i) {
        scopes_with_kinds();
        let opened = scopes.push(
            Scope { parent: Some(parent), span: span_at(t, i), kind: scope_kind(t, i) },
        );
        let id = scopes.len() as usize;
        if is_holder(t, i) {
            if let Some(body) = t.child(i, "body"@) {
                scopes_are_kept_in(t, body + 1, t.after(body), id, opened);
            }
        } else if t.kind(i) == "block"@ {
            scopes_are_kept_in(t, i + 1, t.after(i), id, opened);
        } else {
            scopes_are_kept_in(t, i + 1, t.after(i), parent, scopes);
        }
    }
}

proof fn scopes_are_kept_in(t: Syntax, lo: int, hi: int, parent: ScopeId, scopes: Seq<Scope>)
    ensures
        extends(scopes_with_all(t, lo, hi, parent, scopes), scopes),
    decreases t.left(lo), 1nat,
{
    if lo < hi && t.has(lo) {
        scopes_are_kept(t, lo, parent, scopes);
        scopes_are_kept_in(t, t.next(lo, hi), hi, parent, scopes_with(t, lo, parent, scopes));
    }
}

proof fn scope_is_opened(
    t: Syntax,
    i: int,
    parent: ScopeId,
    scopes: Seq<Scope>,
    j: int,
    outer: Option<int>,
)
    requires
        t.nested(),
        t.linked(),
        t.has(i),
        i <= j < t.after(i),
        forall|k: int| #[trigger] is_holder(t, k) ==> !is_held(t, k),
        opens(t, j),
        !is_held(t, i),
        forall|k: int| i <= k < j && j < #[trigger] t.after(k) && is_holder(t, k)
            ==> is_inside(t, k, j),
        is_nearest(t, i, j, outer),
        scopes_with(t, i, parent, scopes).len() <= usize::MAX,
    ensures
        opens_scope(
            scopes_with(t, i, parent, scopes),
            scopes.len() as int,
            t,
            j,
            scope_kind(t, j),
            parent,
            outer,
        ),
    decreases t.left(i), 0nat,
{
    scopes_with_kinds();
    let opened = scopes.push(
        Scope { parent: Some(parent), span: span_at(t, i), kind: scope_kind(t, i) },
    );
    let id = scopes.len() as usize;
    let after = scopes_with(t, i, parent, scopes);
    scopes_are_kept(t, i, parent, scopes);
    if i == j {
        assert(after[scopes.len() as int] == opened[scopes.len() as int]);
    } else {
        let inner = if outer == Some(i) { None } else { outer };
        if is_holder(t, i) {
            assert(opens(t, i));
            assert(after[id as int] == opened[id as int]);
            assert(is_inside(t, i, j));
            let b = t.child(i, "body"@)->0;
            field_is_child(t, i, "body"@);
            assert(is_held(t, b));
            assert forall|k: int| i < k < j && j < #[trigger] t.after(k) implies k >= b by {
                if k < b {
                    earlier_ends_before(t, i + 1, t.after(i), b, k);
                }
            }
            assert forall|c: int| #[trigger] t.reaches(b + 1, t.after(b), c) implies !is_held(t, c) by {
                assert(t.has_child(b, c));
                if is_held(t, c) {
                    let p = choose|p: int| #![trigger t.child(p, "body"@)] 0 <= p < c
                        && is_holder(t, p) && t.child(p, "body"@) == Some(c);
                    field_is_child(t, p, "body"@);
                }
            }
            scope_is_opened_in(t, b + 1, t.after(b), id, opened, j, inner);
            scope_is_within(after, t, i, j, scope_kind(t, j), id, parent, inner, outer);
        } else if t.kind(i) == "block"@ {
            assert(opens(t, i));
            assert(after[id as int] == opened[id as int]);
            assert forall|c: int| #[trigger] t.reaches(i + 1, t.after(i), c) implies !is_held(t, c) by {
                assert(t.has_child(i, c));
                if is_held(t, c) {
                    let p = choose|p: int| #![trigger t.child(p, "body"@)] 0 <= p < c
                        && is_holder(t, p) && t.child(p, "body"@) == Some(c);
                    field_is_child(t, p, "body"@);
                }
            }
            scope_is_opened_in(t, i + 1, t.after(i), id, opened, j, inner);
            scope_is_within(after, t, i, j, scope_kind(t, j), id, parent, inner, outer);
        } else {
            assert(!opens(t, i));
            assert forall|c: int| #[trigger] t.reaches(i + 1, t.after(i), c) implies !is_held(t, c) by {
                assert(t.has_child(i, c));
                if is_held(t, c) {
                    let p = choose|p: int| #![trigger t.child(p, "body"@)] 0 <= p < c
                        && is_holder(t, p) && t.child(p, "body"@) == Some(c);
                    field_is_child(t, p, "body"@);
                }
            }
            scope_is_opened_in(t, i + 1, t.after(i), parent, scopes, j, outer);
        }
    }
}

proof fn scope_is_opened_in(
    t: Syntax,
    lo: int,
    hi: int,
    parent: ScopeId,
    scopes: Seq<Scope>,
    j: int,
    outer: Option<int>,
)
    requires
        t.nested(),
        t.linked(),
        t.closed_range(lo, hi),
        lo <= j < hi,
        forall|k: int| #[trigger] is_holder(t, k) ==> !is_held(t, k),
        opens(t, j),
        forall|c: int| #[trigger] t.reaches(lo, hi, c) ==> !is_held(t, c),
        forall|k: int| lo <= k < j && j < #[trigger] t.after(k) && is_holder(t, k)
            ==> is_inside(t, k, j),
        is_nearest(t, lo, j, outer),
        scopes_with_all(t, lo, hi, parent, scopes).len() <= usize::MAX,
    ensures
        opens_scope(
            scopes_with_all(t, lo, hi, parent, scopes),
            scopes.len() as int,
            t,
            j,
            scope_kind(t, j),
            parent,
            outer,
        ),
    decreases t.left(lo), 1nat,
{
    let next = t.next(lo, hi);
    assert(t.reaches(lo, hi, lo));
    assert forall|c: int| #[trigger] t.reaches(next, hi, c) implies t.reaches(lo, hi, c) by {}
    let first = scopes_with(t, lo, parent, scopes);
    let all = scopes_with_all(t, lo, hi, parent, scopes);
    scopes_are_kept(t, lo, parent, scopes);
    scopes_are_kept_in(t, next, hi, parent, first);
    if j < t.after(lo) {
        scope_is_opened(t, lo, parent, scopes, j, outer);
        opens_scope_stays(
            first,
            all,
            scopes.len() as int,
            scopes.len() as int,
            t,
            j,
            scope_kind(t, j),
            parent,
            outer,
        );
    } else {
        nearest_is_later(t, lo, next, j, outer);
        scope_is_opened_in(t, next, hi, parent, first, j, outer);
        opens_scope_stays(
            all,
            all,
            first.len() as int,
            scopes.len() as int,
            t,
            j,
            scope_kind(t, j),
            parent,
            outer,
        );
    }
}

proof fn nearest_is_later(t: Syntax, lo: int, next: int, j: int, outer: Option<int>)
    requires
        t.nested(),
        0 <= lo < t.len(),
        next == t.after(lo),
        next <= j,
        is_nearest(t, lo, j, outer),
    ensures
        is_nearest(t, next, j, outer),
{
    if let Some(a) = outer {
        if a < next {
            assert(t.after(a) <= t.after(lo));
        }
    }
}

/// A function opens a scope of its own, declared or a value, and so does each
/// block that is not its body, where only bodies lie around it. Its parent is
/// the scope of the innermost of these around it, or that of the file.
pub proof fn scopes_are_opened(
    lang: Language,
    t: Syntax,
    file: Seq<char>,
    found: Seq<Seq<CaptureView>>,
    j: int,
    outer: Option<int>,
)
    requires
        t.nested(),
        t.linked(),
        1 <= j < t.after(0),
        opens(t, j),
        forall|k: int| 1 <= k < j && j < #[trigger] t.after(k) && is_holder(t, k)
            ==> is_inside(t, k, j),
        forall|k: int| #[trigger] is_holder(t, k) ==> !is_held(t, k),
        !is_holder(t, 0),
        is_nearest(t, 1, j, outer),
        facts_of(lang, t, file, found).scopes.len() <= usize::MAX,
    ensures
        opens_scope(facts_of(lang, t, file, found).scopes, 1, t, j, scope_kind(t, j), 0, outer),
{
    let first = seq![module_scope(byte_count(t.source) as int)];
    assert forall|c: int| #[trigger] t.reaches(1, t.after(0), c) implies !is_held(t, c) by {
                assert(t.has_child(0, c));
                if is_held(t, c) {
                    let p = choose|p: int| #![trigger t.child(p, "body"@)] 0 <= p < c
                        && is_holder(t, p) && t.child(p, "body"@) == Some(c);
                    field_is_child(t, p, "body"@);
                }
            }
    scope_is_opened_in(t, 1, t.after(0), 0, first, j, outer);
}

// ── Modules ──────────────────────────────────────────────────────────────────

proof fn path_gives_namespaces(root: Seq<char>, parts: Seq<Seq<char>>, ext: Seq<char>)
    requires
        parts.len() > 0,
        are_parts(parts, '/'),
        ext == ".luau"@ || ext == ".lua"@,
        root == "luau/"@ || root == "lua/"@ || root == "src/"@
            || (root.len() == 0 && !has_prefix(join(parts, '/'), "luau/"@) && !has_prefix(join(parts, '/'), "lua/"@) && !has_prefix(join(parts, '/'), "src/"@)),
    ensures
        namespaces_of(root + join(parts, '/') + ext) == parts,
{
    reveal_strlit(".luau");
    reveal_strlit(".lua");
    reveal_strlit("luau/");
    reveal_strlit("lua/");
    reveal_strlit("src/");
    let body = join(parts, '/');
    let stem = root + body;
    joined_comes_apart(parts, '/');
    own_suffix(stem, ext);
    if ext == ".luau"@ {
        other_suffix(stem, ".luau"@, ".lua"@, 1);
    }
    if ext == ".lua"@ {
        other_suffix(stem, ".lua"@, ".luau"@, 1);
    }
    prefix_comes_off(root, body);
    if root == "luau/"@ {
        assert(stem[3] == "luau/"@[3]);
        if has_prefix(stem, "lua/"@) {
            assert(stem.subrange(0, 4)[3] == "lua/"@[3]);
        }
        assert(stem[0] == "luau/"@[0]);
        if has_prefix(stem, "src/"@) {
            assert(stem.subrange(0, 4)[0] == "src/"@[0]);
        }
    }
    if root == "lua/"@ {
        assert(stem[3] == "lua/"@[3]);
        if has_prefix(stem, "luau/"@) {
            assert(stem.subrange(0, 5)[3] == "luau/"@[3]);
        }
        assert(stem[0] == "lua/"@[0]);
        if has_prefix(stem, "src/"@) {
            assert(stem.subrange(0, 4)[0] == "src/"@[0]);
        }
    }
    if root == "src/"@ {
        assert(stem[0] == "src/"@[0]);
        if has_prefix(stem, "luau/"@) {
            assert(stem.subrange(0, 5)[0] == "luau/"@[0]);
        }
        assert(stem[0] == "src/"@[0]);
        if has_prefix(stem, "lua/"@) {
            assert(stem.subrange(0, 4)[0] == "lua/"@[0]);
        }
    }
    if root.len() == 0 {
        assert(stem =~= body);
    }
}

/// The module of a Lua file has the pieces of the path of the file as its
/// names, without `luau/`, `lua/` or `src/` in front and without the extension.
pub proof fn paths_name_modules(
    lang: Language,
    t: Syntax,
    file: Seq<char>,
    found: Seq<Seq<CaptureView>>,
    root: Seq<char>,
    parts: Seq<Seq<char>>,
    ext: Seq<char>,
)
    requires
        parts.len() > 0,
        are_parts(parts, '/'),
        ext == ".luau"@ || ext == ".lua"@,
        root == "luau/"@ || root == "lua/"@ || root == "src/"@
            || (root.len() == 0 && !has_prefix(join(parts, '/'), "luau/"@) && !has_prefix(join(parts, '/'), "lua/"@) && !has_prefix(join(parts, '/'), "src/"@)),
        file == root + join(parts, '/') + ext,
    ensures
        is_module(facts_of(lang, t, file, found), parts),
{
    path_gives_namespaces(root, parts, ext);
}

/// Each definition of a file stands in the module of the file where the file is
/// in a namespace: its identity extends that of the module.
pub proof fn definitions_stand_in_modules(
    lang: Language,
    t: Syntax,
    file: Seq<char>,
    found: Seq<Seq<CaptureView>>,
    k: int,
)
    requires
        0 <= k < facts_of(lang, t, file, found).symbols.len() - 1,
        namespaces_of(file).len() > 0,
    ensures
        extends_module(facts_of(lang, t, file, found), k),
{
    let c = context(lang, t, file);
    let prefix = steps(lang, t, file);
    let f = facts_of(lang, t, file, found);
    definitions_belong(c, prefix, 1, t.after(0));
    let defs = symbols_in(c, prefix, 1, t.after(0));
    assert(f.symbols[k] == defs[k]);
    assert(f.symbols.last() == f.symbols[f.symbols.len() - 1]);
    assert(is_defined(c, prefix, defs[k]));
    assert(belongs(c, prefix, defs[k]));
}

proof fn write_is_target(t: Syntax, file: Seq<char>, lo: int, hi: int, k: int) -> (n: int)
    requires
        0 <= k < writes_to(t, file, lo, hi).len(),
    ensures
        t.reaches(lo, hi, n),
        t.kind(n) == "identifier"@,
        long_enough(t.text(n)),
        writes_to(t, file, lo, hi)[k] == reference_at(t, file, n, t.text(n), RefRole::Write),
    decreases hi - lo,
{
    let own = write_to(t, file, lo);
    if k < own.len() {
        lo
    } else {
        let n = write_is_target(t, file, t.next(lo, hi), hi, k - own.len());
        assert(t.reaches(lo, hi, n));
        n
    }
}

// ── Nothing else is read or written ──────────────────────────────────────────

/// Whether the identifier `i` below `p` stands as a value: it is not called, assigned
/// to or introduced there.
pub open spec fn is_value_below(t: Syntax, p: int, i: int) -> bool {
    &&& t.kind(p) == "function_call"@ ==> !(t.child(p, "name"@) == Some(i))
    &&& t.kind(p) == "function_declaration"@ ==> !(t.child(p, "name"@) == Some(i))
    &&& t.kind(p) == "field"@ ==> !(t.child(p, "name"@) == Some(i))
    &&& t.kind(p) == "dot_index_expression"@ ==> !(t.child(p, "field"@) == Some(i))
    &&& t.kind(p) == "method_index_expression"@ ==> !(t.child(p, "method"@) == Some(i))
    &&& t.kind(p) == "variable_list"@ ==> false
    &&& t.kind(p) == "parameters"@ ==> false
}

/// Each read of a file is of an identifier that is long enough and stands as a
/// value.
pub proof fn reads_are_values(t: Syntax, file: Seq<char>, k: int) -> (at: (int, int))
    requires
        t.nested(),
        t.has(0),
        identifiers_apart(t),
        0 <= k < reads_at(t, file, 0).len(),
    ensures
        0 <= at.1 < t.after(0),
        t.kind(at.1) == "identifier"@,
        long_enough(t.text(at.1)),
        t.parent(at.1) == Some(at.0),
        is_value_below(t, at.0, at.1),
        reads_at(t, file, 0)[k] == reference_at(t, file, at.1, t.text(at.1), RefRole::Read),
{
    reads_are_sound(t, file, k);
    let i = choose|i: int| 0 <= i < t.after(0) && #[trigger] is_read(t, i)
        && reads_at(t, file, 0)[k] == reference_at(t, file, i, t.text(i), RefRole::Read);
    let p = t.parent(i)->0;
    read_is_value(t, p, i);
    (p, i)
}

proof fn read_is_value(t: Syntax, p: int, i: int)
    requires
        t.parent(i) == Some(p),
        !not_read(t, i),
    ensures
        is_value_below(t, p, i),
{
    read_kinds();
}

proof fn read_kinds()
    ensures
        "function_call"@ != "function_declaration"@,
        "function_call"@ != "field"@,
        "function_call"@ != "dot_index_expression"@,
        "function_call"@ != "method_index_expression"@,
        "function_call"@ != "variable_list"@,
        "function_call"@ != "parameters"@,
        "function_declaration"@ != "field"@,
        "function_declaration"@ != "dot_index_expression"@,
        "function_declaration"@ != "method_index_expression"@,
        "function_declaration"@ != "variable_list"@,
        "function_declaration"@ != "parameters"@,
        "field"@ != "dot_index_expression"@,
        "field"@ != "method_index_expression"@,
        "field"@ != "variable_list"@,
        "field"@ != "parameters"@,
        "dot_index_expression"@ != "method_index_expression"@,
        "dot_index_expression"@ != "variable_list"@,
        "dot_index_expression"@ != "parameters"@,
        "method_index_expression"@ != "variable_list"@,
        "method_index_expression"@ != "parameters"@,
        "variable_list"@ != "parameters"@,
{
    reveal_strlit("function_call");
    reveal_strlit("function_declaration");
    reveal_strlit("field");
    reveal_strlit("dot_index_expression");
    reveal_strlit("method_index_expression");
    reveal_strlit("variable_list");
    reveal_strlit("parameters");
    assert("function_call"@.len() == 13);
    assert("function_declaration"@.len() == 20);
    assert("field"@.len() == 5);
    assert("dot_index_expression"@.len() == 20);
    assert("method_index_expression"@.len() == 23);
    assert("variable_list"@.len() == 13);
    assert("parameters"@.len() == 10);
    assert("function_call"@[0] != "variable_list"@[0]);
    assert("function_declaration"@[0] != "dot_index_expression"@[0]);
}

/// Whether node `n` is an identifier that is long enough and that node `i` assigns to.
pub open spec fn is_assigned(t: Syntax, i: int, n: int) -> bool {
    t.kind(n) == "identifier"@ && long_enough(t.text(n)) && t.kind(i) == "assignment_statement"@
        && !(t.parent(i) matches Some(p) && t.kind(p) == "variable_declaration"@)
        && (t.child_of_kind(i, "variable_list"@) matches Some(list) && t.has_child(list, n))
}

/// Each write of a file is of an identifier that is long enough and that an
/// assignment assigns to.
pub proof fn writes_are_targets(t: Syntax, file: Seq<char>, k: int) -> (at: (int, int))
    requires
        t.nested(),
        t.has(0),
        0 <= k < writes_at(t, file, 0).len(),
    ensures
        0 <= at.0 < t.after(0),
        is_assigned(t, at.0, at.1),
        writes_at(t, file, 0)[k] == reference_at(t, file, at.1, t.text(at.1), RefRole::Write),
{
    let items = writes_of_nodes(t, file);
    let is_one = |r: ReferenceView| exists|i: int, n: int| 0 <= i < t.after(0)
        && #[trigger] is_assigned(t, i, n)
        && r == reference_at(t, file, n, t.text(n), RefRole::Write);
    writes_in_document_order(t, file, 0);
    assert forall|i: int, e: int| 0 <= i < t.after(0) && 0 <= e < items(i).len() implies is_one(#[trigger] items(i)[e]) by {
        let list = t.child_of_kind(i, "variable_list"@)->0;
        let n = write_is_target(t, file, list + 1, t.after(list), e);
        assert(t.has_child(list, n));
        assert(is_assigned(t, i, n));
    }
    in_order_all(items, 0, t.after(0), is_one);
    assert(is_one(writes_at(t, file, 0)[k]));
    choose|i: int, n: int| 0 <= i < t.after(0) && #[trigger] is_assigned(t, i, n)
        && writes_at(t, file, 0)[k] == reference_at(t, file, n, t.text(n), RefRole::Write)
}

// ── Nothing else is defined ──────────────────────────────────────────────────

/// Whether node `i` is of a kind that declares symbols of the kind `kind`.
pub open spec fn declares(t: Syntax, i: int, kind: SymbolKind) -> bool {
    match kind {
        SymbolKind::Function => t.kind(i) == "function_declaration"@
            || t.kind(i) == "assignment_statement"@ || t.kind(i) == "variable_declaration"@,
        SymbolKind::Method => t.kind(i) == "function_declaration"@ || t.kind(i) == "field"@,
        SymbolKind::Module => t.kind(i) == "assignment_statement"@
            || t.kind(i) == "variable_declaration"@,
        SymbolKind::Static => t.kind(i) == "assignment_statement"@
            || t.kind(i) == "variable_declaration"@ || t.kind(i) == "field"@,
        SymbolKind::TypeAlias => t.kind(i) == "type_definition"@,
        _ => false,
    }
}

/// The characters at which the signature of a symbol of the kind `kind` at node
/// `i` ends.
pub open spec fn stops_at(t: Syntax, i: int, kind: SymbolKind) -> Seq<char> {
    match kind { SymbolKind::TypeAlias => "="@, _ => if t.kind(i) == "function_declaration"@ { "{("@ } else { "{="@ } }
}

/// Whether a symbol stands at a node that declares symbols of its kind, and has the
/// words of the node up to where it stops for a signature.
pub open spec fn is_declared_by(c: Ctx, s: SymbolView) -> bool {
    exists|i: int| #![trigger occurrence_at(c.tree, c.file, i)] s.occ == occurrence_at(
        c.tree,
        c.file,
        i,
    )
        && s.span == span_at(c.tree, i) && declares(c.tree, i, s.kind)
        && s.signature == one_line(c.tree.text(i), stops_at(c.tree, i, s.kind))
}

/// Whether all symbols do.
pub open spec fn all_declared(c: Ctx, symbols: Seq<SymbolView>) -> bool {
    forall|k: int| 0 <= k < symbols.len() ==> is_declared_by(c, #[trigger] symbols[k])
}

proof fn places_differ()
    ensures
        "field"@ != "function_declaration"@,
        "assignment_statement"@ != "function_declaration"@,
        "variable_declaration"@ != "function_declaration"@,
{
    reveal_strlit("field");
    reveal_strlit("function_declaration");
    reveal_strlit("assignment_statement");
    reveal_strlit("variable_declaration");
    assert("field"@.len() != "function_declaration"@.len());
    assert("assignment_statement"@[0] != "function_declaration"@[0]);
    assert("variable_declaration"@[0] != "function_declaration"@[0]);
}

proof fn fields_in_declared(c: Ctx, prefix: Seq<DescriptorView>, lo: int, hi: int)
    ensures
        all_declared(c, fields_in(c, prefix, lo, hi)),
    decreases hi - lo,
{
    places_differ();
    if lo < hi {
        fields_in_declared(c, prefix, c.tree.next(lo, hi), hi);
    }
}

proof fn named_symbols_declared(
    c: Ctx,
    prefix: Seq<DescriptorView>,
    i: int,
    name: Seq<char>,
    value: Option<int>,
)
    requires
        c.tree.kind(i) == "assignment_statement"@ || c.tree.kind(i) == "variable_declaration"@,
    ensures
        all_declared(c, named_symbols(c, prefix, i, name, value)),
{
    places_differ();
    let t = c.tree;
    let (kind, leaf) = valued(t, name, value);
    if let Some(v) = value {
        if t.kind(v) == "table_constructor"@ {
            fields_in_declared(c, prefix + seq![leaf], v + 1, t.after(v));
        }
    }
}

proof fn assigned_in_declared(c: Ctx, prefix: Seq<DescriptorView>, i: int, lo: int, hi: int, k: int)
    requires
        c.tree.kind(i) == "assignment_statement"@ || c.tree.kind(i) == "variable_declaration"@,
    ensures
        all_declared(c, assigned_in(c, prefix, i, lo, hi, k)),
    decreases hi - lo,
{
    if lo < hi {
        if c.tree.kind(lo) == "identifier"@ {
            named_symbols_declared(c, prefix, i, c.tree.text(lo), value_of(c.tree, i, k));
            assigned_in_declared(c, prefix, i, c.tree.next(lo, hi), hi, k + 1);
        } else {
            assigned_in_declared(c, prefix, i, c.tree.next(lo, hi), hi, k);
        }
    }
}

proof fn assignment_symbols_declared(c: Ctx, prefix: Seq<DescriptorView>, i: int)
    requires
        c.tree.kind(i) == "assignment_statement"@ || c.tree.kind(i) == "variable_declaration"@,
    ensures
        all_declared(c, assignment_symbols(c, prefix, i)),
{
    if let Some(names) = c.tree.child_of_kind(i, "variable_list"@) {
        assigned_in_declared(c, prefix, i, names + 1, c.tree.after(names), 0);
    }
}

proof fn assignments_in_declared(c: Ctx, prefix: Seq<DescriptorView>, lo: int, hi: int)
    ensures
        all_declared(c, assignments_in(c, prefix, lo, hi)),
    decreases hi - lo,
{
    if lo < hi {
        if c.tree.kind(lo) == "assignment_statement"@ {
            assignment_symbols_declared(c, prefix, lo);
        }
        assignments_in_declared(c, prefix, c.tree.next(lo, hi), hi);
    }
}

proof fn symbols_at_declared(c: Ctx, prefix: Seq<DescriptorView>, i: int)
    ensures
        all_declared(c, symbols_at(c, prefix, i)),
{
    let kind = c.tree.kind(i);
    if kind != "function_declaration"@ {
        if kind == "variable_declaration"@ {
            assignment_symbols_declared(c, prefix, i);
            assignments_in_declared(c, prefix, i + 1, c.tree.after(i));
        } else if kind == "assignment_statement"@ {
            assignment_symbols_declared(c, prefix, i);
        }
    }
}

proof fn definitions_declared(c: Ctx, prefix: Seq<DescriptorView>, lo: int, hi: int)
    ensures
        all_declared(c, symbols_in(c, prefix, lo, hi)),
    decreases hi - lo,
{
    if lo < hi {
        symbols_at_declared(c, prefix, lo);
        definitions_declared(c, prefix, c.tree.next(lo, hi), hi);
    }
}

/// Each definition of a file, but for that of its module, stands at a node that
/// declares symbols of its kind. Its signature is the text of the node on one
/// line, up to where it stops.
pub proof fn definitions_stand_at_declarations(
    lang: Language,
    t: Syntax,
    file: Seq<char>,
    found: Seq<Seq<CaptureView>>,
    k: int,
) -> (i: int)
    requires
        0 <= k < facts_of(lang, t, file, found).symbols.len() - 1,
    ensures
        declares(t, i, facts_of(lang, t, file, found).symbols[k].kind),
        is_at(facts_of(lang, t, file, found).symbols[k].occ, file, t, i),
        facts_of(lang, t, file, found).symbols[k].span.start == t.start(i) as usize,
        facts_of(lang, t, file, found).symbols[k].span.end == t.end(i) as usize,
        facts_of(lang, t, file, found).symbols[k].signature == one_line(
            t.text(i),
            stops_at(t, i, facts_of(lang, t, file, found).symbols[k].kind),
        ),
{
    let c = context(lang, t, file);
    let prefix = steps(lang, t, file);
    let f = facts_of(lang, t, file, found);
    definitions_declared(c, prefix, 1, t.after(0));
    let defs = symbols_in(c, prefix, 1, t.after(0));
    assert(f.symbols[k] == defs[k]);
    assert(is_declared_by(c, defs[k]));
    choose|i: int| #![trigger occurrence_at(t, file, i)] defs[k].occ == occurrence_at(t, file, i)
        && defs[k].span == span_at(t, i) && declares(t, i, defs[k].kind)
        && defs[k].signature == one_line(t.text(i), stops_at(t, i, defs[k].kind))
}

// ── All names and places ─────────────────────────────────────────────────────

/// The facts of a file name the file and its language.
pub proof fn facts_name_their_file(
    lang: Language,
    t: Syntax,
    file: Seq<char>,
    found: Seq<Seq<CaptureView>>,
)
    ensures
        facts_of(lang, t, file, found).file == file,
        facts_of(lang, t, file, found).lang == lang.tag(),
{
}

/// Each reference has the last scope of the file that holds its place.
pub proof fn references_have_innermost_scopes(
    lang: Language,
    t: Syntax,
    file: Seq<char>,
    found: Seq<Seq<CaptureView>>,
    k: int,
)
    requires
        0 <= k < facts_of(lang, t, file, found).references.len(),
        facts_of(lang, t, file, found).scopes.len() <= usize::MAX,
    ensures
        is_scoped(
            facts_of(lang, t, file, found).scopes,
            facts_of(lang, t, file, found).references[k],
        ),
{
    place_is_scoped(
        facts_of(lang, t, file, found).scopes,
        facts_of(lang, t, file, found).references[k],
    );
}

/// Each definition of a file, but for that of its module, is bound in the scope
/// of the file as a whole.
pub proof fn definitions_are_bound(
    lang: Language,
    t: Syntax,
    file: Seq<char>,
    found: Seq<Seq<CaptureView>>,
    k: int,
)
    requires
        0 <= k < facts_of(lang, t, file, found).symbols.len() - 1,
    ensures
        binds_definition(facts_of(lang, t, file, found), facts_of(lang, t, file, found).symbols[k]),
{
    let f = facts_of(lang, t, file, found);
    let locals = bindings_at(t, f.scopes, 0);
    let c = context(lang, t, file);
    let prefix = steps(lang, t, file);
    let defs = symbols_in(c, prefix, 1, t.after(0));
    let imported: Seq<BindingView> = imports_bound(f.scopes, f.references);
    assert(f.bindings =~= locals + definitions_bound(defs) + imported);
    assert(f.symbols[k] == defs[k]);
    definition_is_bound(f, locals, defs, imported, k);
}

/// Each import of a file is bound in the innermost scope at its place.
pub proof fn imports_are_bound(
    lang: Language,
    t: Syntax,
    file: Seq<char>,
    found: Seq<Seq<CaptureView>>,
    k: int,
)
    requires
        0 <= k < facts_of(lang, t, file, found).references.len(),
        facts_of(lang, t, file, found).references[k].role == RefRole::Import,
        facts_of(lang, t, file, found).scopes.len() <= usize::MAX,
    ensures
        binds_import(facts_of(lang, t, file, found), facts_of(lang, t, file, found).references[k]),
{
    let f = facts_of(lang, t, file, found);
    let locals = bindings_at(t, f.scopes, 0);
    let c = context(lang, t, file);
    let prefix = steps(lang, t, file);
    let defs = symbols_in(c, prefix, 1, t.after(0));
    imported_is_bound(f, locals, defs, k);
}

/// Each name that a file binds is that of a definition or of an import of the
/// file, or is bound to itself in the innermost scope at its place.
pub proof fn bindings_have_origins(
    lang: Language,
    t: Syntax,
    file: Seq<char>,
    found: Seq<Seq<CaptureView>>,
    k: int,
)
    requires
        0 <= k < facts_of(lang, t, file, found).bindings.len(),
        facts_of(lang, t, file, found).scopes.len() <= usize::MAX,
    ensures
        has_origin(facts_of(lang, t, file, found), facts_of(lang, t, file, found).bindings[k]),
{
    let f = facts_of(lang, t, file, found);
    let locals = bindings_at(t, f.scopes, 0);
    let c = context(lang, t, file);
    let prefix = steps(lang, t, file);
    let defs = symbols_in(c, prefix, 1, t.after(0));
    let imported: Seq<BindingView> = imports_bound(f.scopes, f.references);
    assert(f.bindings =~= locals + definitions_bound(defs) + imported);
    locals_are_nested(t, f.scopes, 0);
    bound_has_origin(f, locals, defs, imported, k);
}

// ── Local names are written in the file ──────────────────────────────────────

/// Whether a name is the text of a node at its place.
pub open spec fn is_written(t: Syntax, b: BindingView) -> bool {
    exists|n: int| #![trigger t.text(n)] b.name == t.text(n) && b.intro == t.start(n)
        && t.kind(n) == "identifier"@
}

/// Whether all names are.
pub open spec fn all_written(t: Syntax, bindings: Seq<BindingView>) -> bool {
    forall|k: int| 0 <= k < bindings.len() ==> is_written(t, #[trigger] bindings[k])
}

proof fn params_in_written(t: Syntax, scopes: Seq<Scope>, lo: int, hi: int)
    ensures
        all_written(t, params_in(t, scopes, lo, hi)),
    decreases hi - lo,
{
    if lo < hi {
        params_in_written(t, scopes, t.next(lo, hi), hi);
    }
}

proof fn locals_in_written(t: Syntax, scopes: Seq<Scope>, lo: int, hi: int)
    ensures
        all_written(t, locals_in(t, scopes, lo, hi)),
    decreases hi - lo,
{
    if lo < hi {
        locals_in_written(t, scopes, t.next(lo, hi), hi);
    }
}

proof fn declared_in_written(t: Syntax, scopes: Seq<Scope>, lo: int, hi: int)
    ensures
        all_written(t, declared_in(t, scopes, lo, hi)),
    decreases hi - lo,
{
    if lo < hi {
        if t.kind(lo) == "variable_list"@ {
            locals_in_written(t, scopes, lo + 1, t.after(lo));
        } else if t.kind(lo) == "assignment_statement"@ {
            if let Some(names) = t.child_of_kind(lo, "variable_list"@) {
                locals_in_written(t, scopes, names + 1, t.after(names));
            }
        }
        declared_in_written(t, scopes, t.next(lo, hi), hi);
    }
}

proof fn introduced_written(t: Syntax, scopes: Seq<Scope>, i: int)
    ensures
        all_written(t, introduced(t, scopes, i)),
{
    if t.kind(i) == "function_declaration"@ || t.kind(i) == "function_definition"@ {
        if let Some(params) = t.child(i, "parameters"@) {
            params_in_written(t, scopes, params + 1, t.after(params));
        }
    } else if t.kind(i) == "variable_declaration"@ {
        declared_in_written(t, scopes, i + 1, t.after(i));
    }
}

proof fn bindings_at_written(t: Syntax, scopes: Seq<Scope>, i: int)
    ensures
        all_written(t, bindings_at(t, scopes, i)),
    decreases t.left(i), 0nat,
{
    if t.has(i) {
        introduced_written(t, scopes, i);
        bindings_in_written(t, scopes, i + 1, t.after(i));
    }
}

proof fn bindings_in_written(t: Syntax, scopes: Seq<Scope>, lo: int, hi: int)
    ensures
        all_written(t, bindings_in(t, scopes, lo, hi)),
    decreases t.left(lo), 1nat,
{
    if lo < hi && t.has(lo) {
        bindings_at_written(t, scopes, lo);
        bindings_in_written(t, scopes, t.next(lo, hi), hi);
    }
}

/// Each local name of a file is the text of an identifier at its place.
pub proof fn locals_are_written(t: Syntax, scopes: Seq<Scope>, k: int) -> (n: int)
    requires
        0 <= k < bindings_at(t, scopes, 0).len(),
    ensures
        bindings_at(t, scopes, 0)[k].name == t.text(n),
        bindings_at(t, scopes, 0)[k].intro == t.start(n),
        t.kind(n) == "identifier"@,
{
    bindings_at_written(t, scopes, 0);
    let b = bindings_at(t, scopes, 0)[k];
    assert(is_written(t, b));
    choose|n: int| #![trigger t.text(n)] b.name == t.text(n) && b.intro == t.start(n)
        && t.kind(n) == "identifier"@
}

proof fn kept_unless_required(references: Seq<ReferenceView>, n: int, r: ReferenceView)
    requires
        0 <= n <= references.len(),
        exists|k: int| 0 <= k < n && #[trigger] references[k] == r,
        r.name != "require"@,
    ensures
        not_require(references, n).contains(r),
    decreases n,
{
    let before = not_require(references, n - 1);
    let last = if references[n - 1].name == "require"@ { Seq::empty() } else { seq![references[n - 1]] };
    if references[n - 1] == r {
        assert(last[0] == r);
    } else {
        kept_unless_required(references, n - 1, r);
    }
    in_either(before, last, r);
}

// ── Calls ────────────────────────────────────────────────────────────────────

/// Each match with a callee that is long enough is a call unless it is one of
/// `require`, with the qualifier of the match where it has one.
pub proof fn calls_are_reported(
    lang: Language,
    t: Syntax,
    file: Seq<char>,
    found: Seq<Seq<CaptureView>>,
    k: int,
    c: CaptureView,
    q: CaptureView,
)
    requires
        0 <= k < found.len(),
        captures(found[k], "callee"@, c),
        long_enough(text_between(t.source, c.start, c.end)),
        text_between(t.source, c.start, c.end) != "require"@,
        captures(found[k], "qualifier"@, q),
    ensures
        calls_name(
            facts_of(lang, t, file, found),
            c,
            text_between(t.source, c.start, c.end),
            Some(text_between(t.source, q.start, q.end)),
            false,
        ),
{
    call_is_found(t.source, file, found, k, c);
    let plain = plain_call(t.source, file, found[k]);
    kept_unless_required(
        calls(t.source, file, found),
        calls(t.source, file, found).len() as int,
        plain,
    );
    let r = plain;
    let called = calls(t.source, file, found);
    in_either(
        not_require(called, called.len() as int),
        imports_at(t, file, own_module(lang, t, file), 0),
        r,
    );
    in_either(
        not_require(called, called.len() as int)
            + imports_at(t, file, own_module(lang, t, file), 0),
        reads_at(t, file, 0),
        r,
    );
    in_either(
        not_require(called, called.len() as int)
            + imports_at(t, file, own_module(lang, t, file), 0) + reads_at(t, file, 0),
        writes_at(t, file, 0),
        r,
    );
    is_reported(
        facts_of(lang, t, file, found),
        references_of(t, file, own_module(lang, t, file), found),
        r,
    );
}

/// Each match with a callee that is long enough and no qualifier is a call
/// unless it is one of `require` without one.
pub proof fn plain_calls_are_reported(
    lang: Language,
    t: Syntax,
    file: Seq<char>,
    found: Seq<Seq<CaptureView>>,
    k: int,
    c: CaptureView,
)
    requires
        0 <= k < found.len(),
        captures(found[k], "callee"@, c),
        long_enough(text_between(t.source, c.start, c.end)),
        text_between(t.source, c.start, c.end) != "require"@,
        lacks(found[k], "qualifier"@),
    ensures
        calls_name(
            facts_of(lang, t, file, found),
            c,
            text_between(t.source, c.start, c.end),
            None,
            false,
        ),
{
    call_is_found(t.source, file, found, k, c);
    let plain = plain_call(t.source, file, found[k]);
    kept_unless_required(
        calls(t.source, file, found),
        calls(t.source, file, found).len() as int,
        plain,
    );
    let r = plain;
    let called = calls(t.source, file, found);
    in_either(
        not_require(called, called.len() as int),
        imports_at(t, file, own_module(lang, t, file), 0),
        r,
    );
    in_either(
        not_require(called, called.len() as int)
            + imports_at(t, file, own_module(lang, t, file), 0),
        reads_at(t, file, 0),
        r,
    );
    in_either(
        not_require(called, called.len() as int)
            + imports_at(t, file, own_module(lang, t, file), 0) + reads_at(t, file, 0),
        writes_at(t, file, 0),
        r,
    );
    is_reported(
        facts_of(lang, t, file, found),
        references_of(t, file, own_module(lang, t, file), found),
        r,
    );
}

} // verus!
