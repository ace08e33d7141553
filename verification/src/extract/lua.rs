//! The facts of Lua files.

use crate::error::{CodegraphError, ErrorView};
use crate::graph::types::{
    Binding, BindingKind, BindingView, ByteSpan, FfiExport, FileFacts, FileFactsView, RefRole,
    Reference, ReferenceView, Scope, ScopeId, ScopeKind, Symbol, SymbolKind, SymbolView, Visibility,
};
use crate::items::{in_order, in_order_none, in_order_split, put, put_all, views, views_empty};
use crate::lang::Language;
use crate::parse::{answer_to, is_parseable, parse, syntax_of, tree_origin, CaptureView, Match};
use crate::symbol::{
    copy_descriptors, method_view, namespace_steps, scip_text, Descriptor, DescriptorView,
};
use crate::syntax::{group_child_bounds, opt_index, Syntax, SyntaxTree};
use crate::text::{
    after_last, after_last_text, byte_count, byte_length, ends_with, has_prefix, has_suffix,
    is_empty, opt_text, same, segments, split_segments, starts_with, strip_prefix, strip_quotes,
    strip_suffix, unquoted_by, without_prefix, without_suffix,
};
use vstd::prelude::*;

use super::{
    all_scoped, are_file_scopes, at_file_level, attach_reference_scopes, calls, coherent,
    collect_call_references, define, defined_at, definition_bindings, definitions_bound, extends,
    facts_are_coherent, facts_bind_imports, import_at, import_bindings, imports_are_bound,
    imports_bound, is_file_level, is_reportable, is_scope_tree, local_binding, module_scope,
    module_symbol, module_view, namespace_descriptors, nests_under, node_span, outcome,
    push_binding, push_import_ref, push_ref, push_scope, reference_at, reportable, scopes_nest,
    span_at, spans_nest, Ctx, ExtractCtx, Extractor,
};

verus! {

broadcast use group_child_bounds;

// ── Namespaces ───────────────────────────────────────────────────────────────

/// The namespaces of a Lua file: the pieces of its path without `.luau` or
/// `.lua` at the end and without the root of the sources in front.
pub open spec fn namespaces_of(file: Seq<char>) -> Seq<Seq<char>> {
    let stem = if has_suffix(file, ".luau"@) {
        without_suffix(file, ".luau"@)
    } else {
        without_suffix(file, ".lua"@)
    };
    let path = if has_prefix(stem, "luau/"@) {
        without_prefix(stem, "luau/"@)
    } else if has_prefix(stem, "lua/"@) {
        without_prefix(stem, "lua/"@)
    } else {
        without_prefix(stem, "src/"@)
    };
    segments(path, '/')
}

/// The namespaces of a Lua file.
pub fn lua_namespaces(file: &str) -> (namespaces: Vec<String>)
    ensures
        views(namespaces@) == namespaces_of(file@),
{
    let stem = if ends_with(file, ".luau") {
        strip_suffix(file, ".luau")
    } else {
        strip_suffix(file, ".lua")
    };
    let path = if starts_with(stem, "luau/") {
        strip_prefix(stem, "luau/")
    } else if starts_with(stem, "lua/") {
        strip_prefix(stem, "lua/")
    } else {
        strip_prefix(stem, "src/")
    };
    split_segments(path, '/')
}

// ── Definitions ──────────────────────────────────────────────────────────────

/// The function that the declaration `i` defines: one with a plain name, or a
/// method of the table that its name starts with.
pub open spec fn function_symbols(c: Ctx, prefix: Seq<DescriptorView>, i: int) -> Seq<SymbolView> {
    let t = c.tree;
    match t.child(i, "name"@) {
        None => Seq::empty(),
        Some(n) => if t.kind(n) == "identifier"@ {
            seq![
                defined_at(
                    c,
                    prefix,
                    i,
                    t.text(n),
                    SymbolKind::Function,
                    Visibility::Unknown,
                    method_view(t.text(n)),
                    "{("@,
                ),
            ]
        } else if t.kind(n) == "dot_index_expression"@ {
            method_symbols(c, prefix, i, t.field_text(n, "table"@), t.field_text(n, "field"@))
        } else if t.kind(n) == "method_index_expression"@ {
            method_symbols(c, prefix, i, t.field_text(n, "table"@), t.field_text(n, "method"@))
        } else {
            Seq::empty()
        },
    }
}

/// The method of a table that the declaration `i` defines.
pub open spec fn method_symbols(
    c: Ctx,
    prefix: Seq<DescriptorView>,
    i: int,
    table: Option<Seq<char>>,
    method: Option<Seq<char>>,
) -> Seq<SymbolView> {
    match (table, method) {
        (Some(table), Some(method)) => seq![
            defined_at(
                c,
                prefix + seq![DescriptorView::Type(table)],
                i,
                method,
                SymbolKind::Method,
                Visibility::Unknown,
                method_view(method),
                "{("@,
            ),
        ],
        _ => Seq::empty(),
    }
}

/// Adds the function that the declaration `i` defines.
fn collect_function_declaration(
    ctx: &ExtractCtx<'_>,
    i: usize,
    prefix: &Vec<Descriptor>,
    out: &mut Vec<Symbol>,
)
    requires
        i < ctx.tree@.len(),
    ensures
        views(final(out)@) == views(old(out)@) + function_symbols(ctx@, views(prefix@), i as int),
{
    let tree = ctx.tree;
    let n: usize = match tree.child(i, "name") {
        Some(n) => n,
        None => {
            return ;
        },
    };
    if tree.is(n, "identifier") {
        let name = tree.text(n).to_owned();
        let leaf = Descriptor::method(tree.text(n).to_owned());
        let symbol = define(
            ctx,
            prefix,
            i,
            name,
            SymbolKind::Function,
            Visibility::Unknown,
            leaf,
            "{(",
        );
        put(out, symbol);
        return ;
    }
    let method = if tree.is(n, "dot_index_expression") {
        tree.field_text(n, "field")
    } else if tree.is(n, "method_index_expression") {
        tree.field_text(n, "method")
    } else {
        return ;
    };
    if let Some(table) = tree.field_text(n, "table") {
        if let Some(method) = method {
            let mut owner = copy_descriptors(prefix);
            put(&mut owner, Descriptor::Type(table));
            let leaf = Descriptor::method(method.as_str().to_owned());
            let symbol = define(
                ctx,
                &owner,
                i,
                method,
                SymbolKind::Method,
                Visibility::Unknown,
                leaf,
                "{(",
            );
            put(out, symbol);
        }
    }
}

/// What the field `i` of a table is: a method where its value is a function.
pub open spec fn field_symbols(c: Ctx, prefix: Seq<DescriptorView>, i: int) -> Seq<SymbolView> {
    let t = c.tree;
    match t.field_text(i, "name"@) {
        Some(name) => if t.kind(i) != "field"@ {
            Seq::empty()
        } else if t.child(i, "value"@) matches Some(v) && t.kind(v) == "function_definition"@ {
            seq![
                defined_at(
                    c,
                    prefix,
                    i,
                    name,
                    SymbolKind::Method,
                    Visibility::Unknown,
                    method_view(name),
                    "{="@,
                ),
            ]
        } else {
            seq![
                defined_at(
                    c,
                    prefix,
                    i,
                    name,
                    SymbolKind::Static,
                    Visibility::Unknown,
                    DescriptorView::Term(name),
                    "{="@,
                ),
            ]
        },
        None => Seq::empty(),
    }
}

/// What the fields among the nodes `lo..hi` of a table are.
pub open spec fn fields_in(c: Ctx, prefix: Seq<DescriptorView>, lo: int, hi: int) -> Seq<SymbolView>
    decreases hi - lo,
{
    if lo >= hi {
        Seq::empty()
    } else {
        field_symbols(c, prefix, lo) + fields_in(c, prefix, c.tree.next(lo, hi), hi)
    }
}

/// Adds what the fields of the table `i` are.
fn collect_table_fields(
    ctx: &ExtractCtx<'_>,
    i: usize,
    prefix: &Vec<Descriptor>,
    out: &mut Vec<Symbol>,
)
    requires
        i < ctx.tree@.len(),
    ensures
        views(final(out)@)
            == views(old(out)@) + fields_in(ctx@, views(prefix@), i + 1, ctx.tree@.after(i as int)),
{
    let tree = ctx.tree;
    let hi: usize = tree.after(i);
    let mut lo: usize = i + 1;
    while lo < hi
        invariant
            i < lo,
            i < tree@.len(),
            tree == ctx.tree,
            hi == tree@.after(i as int),
            hi <= tree@.len(),
            views(out@) + fields_in(ctx@, views(prefix@), lo as int, hi as int) == views(old(out)@)
                + fields_in(ctx@, views(prefix@), i + 1, hi as int),
        decreases hi - lo,
    {
        if tree.is(lo, "field") {
            if let Some(name) = tree.field_text(lo, "name") {
                let is_function: bool = match tree.child(lo, "value") {
                    Some(v) => tree.is(v, "function_definition"),
                    None => false,
                };
                let symbol = if is_function {
                    let leaf = Descriptor::method(name.as_str().to_owned());
                    define(
                        ctx,
                        prefix,
                        lo,
                        name,
                        SymbolKind::Method,
                        Visibility::Unknown,
                        leaf,
                        "{=",
                    )
                } else {
                    let leaf = Descriptor::Term(name.as_str().to_owned());
                    define(
                        ctx,
                        prefix,
                        lo,
                        name,
                        SymbolKind::Static,
                        Visibility::Unknown,
                        leaf,
                        "{=",
                    )
                };
                put(out, symbol);
            }
        }
        lo = tree.next(lo, hi);
    }
}

/// The kind and the last step of a name that is given the value `value`: a
/// function, a table, or something else.
pub open spec fn valued(t: Syntax, name: Seq<char>, value: Option<int>) -> (
    SymbolKind,
    DescriptorView,
) {
    match value {
        Some(v) => if t.kind(v) == "function_definition"@ {
            (SymbolKind::Function, method_view(name))
        } else if t.kind(v) == "table_constructor"@ {
            (SymbolKind::Module, DescriptorView::Type(name))
        } else {
            (SymbolKind::Static, DescriptorView::Term(name))
        },
        None => (SymbolKind::Static, DescriptorView::Term(name)),
    }
}

/// What a name that the assignment `i` gives the value `value` is, with the
/// fields of that value where it is a table.
pub open spec fn named_symbols(
    c: Ctx,
    prefix: Seq<DescriptorView>,
    i: int,
    name: Seq<char>,
    value: Option<int>,
) -> Seq<SymbolView> {
    let t = c.tree;
    let (kind, leaf) = valued(t, name, value);
    seq![defined_at(c, prefix, i, name, kind, Visibility::Unknown, leaf, "{="@)] + match value {
        Some(v) => if t.kind(v) == "table_constructor"@ {
            fields_in(c, prefix + seq![leaf], v + 1, t.after(v))
        } else {
            Seq::empty()
        },
        None => Seq::empty(),
    }
}

/// Adds what a name that the assignment `i` gives a value is.
fn emit_local_symbol(
    ctx: &ExtractCtx<'_>,
    i: usize,
    prefix: &Vec<Descriptor>,
    name: String,
    value: Option<usize>,
    out: &mut Vec<Symbol>,
)
    requires
        value matches Some(v) ==> v < ctx.tree@.len(),
    ensures
        views(final(out)@) == views(old(out)@) + named_symbols(
            ctx@,
            views(prefix@),
            i as int,
            name@,
            opt_index(value),
        ),
{
    let tree = ctx.tree;
    let is_function: bool = match value {
        Some(v) => tree.is(v, "function_definition"),
        None => false,
    };
    let is_table: bool = match value {
        Some(v) => !is_function && tree.is(v, "table_constructor"),
        None => false,
    };
    let (kind, leaf) = if is_function {
        (SymbolKind::Function, Descriptor::method(name.as_str().to_owned()))
    } else if is_table {
        (SymbolKind::Module, Descriptor::Type(name.as_str().to_owned()))
    } else {
        (SymbolKind::Static, Descriptor::Term(name.as_str().to_owned()))
    };
    let mut inner = copy_descriptors(prefix);
    put(&mut inner, leaf.copy());
    let symbol = define(ctx, prefix, i, name, kind, Visibility::Unknown, leaf, "{=");
    put(out, symbol);
    if let Some(v) = value {
        if tree.is(v, "table_constructor") {
            collect_table_fields(ctx, v, &inner, out);
        }
    }
}

/// The value with the number `k` among the nodes `lo..hi` of a list of values.
pub open spec fn nth_value(t: Syntax, lo: int, hi: int, k: int) -> Option<int>
    decreases hi - lo,
{
    if lo >= hi {
        None
    } else if t.kind(lo) == ","@ || t.kind(lo) == " "@ {
        nth_value(t, t.next(lo, hi), hi, k)
    } else if k <= 0 {
        Some(lo)
    } else {
        nth_value(t, t.next(lo, hi), hi, k - 1)
    }
}

/// The value with the number `k` that the assignment `i` gives.
pub open spec fn value_of(t: Syntax, i: int, k: int) -> Option<int> {
    match t.child_of_kind(i, "expression_list"@) {
        Some(values) => nth_value(t, values + 1, t.after(values), k),
        None => None,
    }
}

/// The value with the number `k` that the assignment `i` gives.
fn find_value(tree: &SyntaxTree, i: usize, k: usize) -> (value: Option<usize>)
    requires
        i < tree@.len(),
    ensures
        opt_index(value) == value_of(tree@, i as int, k as int),
        value matches Some(v) ==> v < tree@.len(),
{
    let values: usize = match tree.child_of_kind(i, "expression_list") {
        Some(values) => values,
        None => {
            return None;
        },
    };
    let hi: usize = tree.after(values);
    let mut lo: usize = values + 1;
    let mut left: usize = k;
    while lo < hi
        invariant
            hi <= tree@.len(),
            nth_value(tree@, lo as int, hi as int, left as int) == value_of(
                tree@,
                i as int,
                k as int,
            ),
        decreases hi - lo,
    {
        if !(tree.is(lo, ",") || tree.is(lo, " ")) {
            if left == 0 {
                return Some(lo);
            }
            left -= 1;
        }
        lo = tree.next(lo, hi);
    }
    None
}

/// What the names among the nodes `lo..hi` of the assignment `i` are, where `k`
/// names stand before them.
pub open spec fn assigned_in(
    c: Ctx,
    prefix: Seq<DescriptorView>,
    i: int,
    lo: int,
    hi: int,
    k: int,
) -> Seq<SymbolView>
    decreases hi - lo,
{
    if lo >= hi {
        Seq::empty()
    } else if c.tree.kind(lo) == "identifier"@ {
        named_symbols(c, prefix, i, c.tree.text(lo), value_of(c.tree, i, k)) + assigned_in(
            c,
            prefix,
            i,
            c.tree.next(lo, hi),
            hi,
            k + 1,
        )
    } else {
        assigned_in(c, prefix, i, c.tree.next(lo, hi), hi, k)
    }
}

/// What the names are that the assignment `i` gives values, or that the declaration
/// `i` lists without any.
pub open spec fn assignment_symbols(
    c: Ctx,
    prefix: Seq<DescriptorView>,
    i: int,
) -> Seq<SymbolView> {
    match c.tree.child_of_kind(i, "variable_list"@) {
        Some(names) => assigned_in(c, prefix, i, names + 1, c.tree.after(names), 0),
        None => Seq::empty(),
    }
}

/// Adds what the names that the assignment `i` gives values are.
fn collect_assignment(
    ctx: &ExtractCtx<'_>,
    i: usize,
    prefix: &Vec<Descriptor>,
    out: &mut Vec<Symbol>,
)
    requires
        i < ctx.tree@.len(),
    ensures
        views(final(out)@) == views(old(out)@) + assignment_symbols(
            ctx@,
            views(prefix@),
            i as int,
        ),
{
    let tree = ctx.tree;
    let names: usize = match tree.child_of_kind(i, "variable_list") {
        Some(names) => names,
        None => {
            return ;
        },
    };
    let hi: usize = tree.after(names);
    let mut lo: usize = names + 1;
    let mut k: usize = 0;
    while lo < hi
        invariant
            tree == ctx.tree,
            i < tree@.len(),
            hi <= tree@.len(),
            k <= lo,
            views(out@) + assigned_in(
                ctx@,
                views(prefix@),
                i as int,
                lo as int,
                hi as int,
                k as int,
            ) == views(old(out)@) + assignment_symbols(ctx@, views(prefix@), i as int),
        decreases hi - lo,
    {
        if tree.is(lo, "identifier") {
            let value = find_value(tree, i, k);
            emit_local_symbol(ctx, i, prefix, tree.text(lo).to_owned(), value, out);
            k += 1;
        }
        lo = tree.next(lo, hi);
    }
}

/// What the assignments among the nodes `lo..hi` define.
pub open spec fn assignments_in(
    c: Ctx,
    prefix: Seq<DescriptorView>,
    lo: int,
    hi: int,
) -> Seq<SymbolView>
    decreases hi - lo,
{
    if lo >= hi {
        Seq::empty()
    } else {
        (if c.tree.kind(lo) == "assignment_statement"@ {
            assignment_symbols(c, prefix, lo)
        } else {
            Seq::empty()
        }) + assignments_in(c, prefix, c.tree.next(lo, hi), hi)
    }
}

/// Adds what the assignments in the declaration `i` define.
fn collect_variable_declaration(
    ctx: &ExtractCtx<'_>,
    i: usize,
    prefix: &Vec<Descriptor>,
    out: &mut Vec<Symbol>,
)
    requires
        i < ctx.tree@.len(),
    ensures
        views(final(out)@)
            == views(old(out)@)
                + assignments_in(ctx@, views(prefix@), i + 1, ctx.tree@.after(i as int)),
{
    let tree = ctx.tree;
    let hi: usize = tree.after(i);
    let mut lo: usize = i + 1;
    while lo < hi
        invariant
            i < lo,
            i < tree@.len(),
            tree == ctx.tree,
            hi == tree@.after(i as int),
            hi <= tree@.len(),
            views(out@) + assignments_in(ctx@, views(prefix@), lo as int, hi as int)
                == views(old(out)@)
                + assignments_in(ctx@, views(prefix@), i + 1, hi as int),
        decreases hi - lo,
    {
        if tree.is(lo, "assignment_statement") {
            collect_assignment(ctx, lo, prefix, out);
        }
        lo = tree.next(lo, hi);
    }
}

/// The alias that the type definition `i` introduces.
pub open spec fn alias_symbols(c: Ctx, prefix: Seq<DescriptorView>, i: int) -> Seq<SymbolView> {
    match c.tree.field_text(i, "name"@) {
        Some(name) => seq![
            defined_at(
                c,
                prefix,
                i,
                name,
                SymbolKind::TypeAlias,
                Visibility::Unknown,
                DescriptorView::Type(name),
                "="@,
            ),
        ],
        None => Seq::empty(),
    }
}

/// Adds the alias that the type definition `i` introduces.
fn collect_type_definition(
    ctx: &ExtractCtx<'_>,
    i: usize,
    prefix: &Vec<Descriptor>,
    out: &mut Vec<Symbol>,
)
    requires
        i < ctx.tree@.len(),
    ensures
        views(final(out)@) == views(old(out)@) + alias_symbols(ctx@, views(prefix@), i as int),
{
    if let Some(name) = ctx.tree.field_text(i, "name") {
        let leaf = Descriptor::Type(name.as_str().to_owned());
        let symbol = define(
            ctx,
            prefix,
            i,
            name,
            SymbolKind::TypeAlias,
            Visibility::Unknown,
            leaf,
            "=",
        );
        put(out, symbol);
    }
}

/// What the node `i` at the top of a Lua file defines.
pub open spec fn symbols_at(c: Ctx, prefix: Seq<DescriptorView>, i: int) -> Seq<SymbolView> {
    let kind = c.tree.kind(i);
    if kind == "function_declaration"@ {
        function_symbols(c, prefix, i)
    } else if kind == "variable_declaration"@ {
        assignment_symbols(c, prefix, i) + assignments_in(c, prefix, i + 1, c.tree.after(i))
    } else if kind == "assignment_statement"@ {
        assignment_symbols(c, prefix, i)
    } else if kind == "type_definition"@ {
        alias_symbols(c, prefix, i)
    } else {
        Seq::empty()
    }
}

/// What the nodes `lo..hi` at the top of a Lua file define.
pub open spec fn symbols_in(
    c: Ctx,
    prefix: Seq<DescriptorView>,
    lo: int,
    hi: int,
) -> Seq<SymbolView>
    decreases hi - lo,
{
    if lo >= hi {
        Seq::empty()
    } else {
        symbols_at(c, prefix, lo) + symbols_in(c, prefix, c.tree.next(lo, hi), hi)
    }
}

/// Adds what the children of the chunk `i` define.
fn collect_chunk(ctx: &ExtractCtx<'_>, i: usize, prefix: &Vec<Descriptor>, out: &mut Vec<Symbol>)
    requires
        i < ctx.tree@.len(),
    ensures
        views(final(out)@)
            == views(old(out)@)
                + symbols_in(ctx@, views(prefix@), i + 1, ctx.tree@.after(i as int)),
{
    let tree = ctx.tree;
    let hi: usize = tree.after(i);
    let mut lo: usize = i + 1;
    while lo < hi
        invariant
            i < lo,
            i < tree@.len(),
            tree == ctx.tree,
            hi == tree@.after(i as int),
            hi <= tree@.len(),
            views(out@) + symbols_in(ctx@, views(prefix@), lo as int, hi as int) == views(old(out)@)
                + symbols_in(ctx@, views(prefix@), i + 1, hi as int),
        decreases hi - lo,
    {
        if tree.is(lo, "function_declaration") {
            collect_function_declaration(ctx, lo, prefix, out);
        } else if tree.is(lo, "variable_declaration") {
            collect_assignment(ctx, lo, prefix, out);
            collect_variable_declaration(ctx, lo, prefix, out);
        } else if tree.is(lo, "assignment_statement") {
            collect_assignment(ctx, lo, prefix, out);
        } else if tree.is(lo, "type_definition") {
            collect_type_definition(ctx, lo, prefix, out);
        }
        lo = tree.next(lo, hi);
    }
}

/// What a Lua file defines.
fn collect_symbols(ctx: &ExtractCtx<'_>, namespaces: &Vec<String>) -> (out: Vec<Symbol>)
    ensures
        views(out@) == symbols_in(
            ctx@,
            namespace_steps(views(namespaces@)),
            1,
            ctx.tree@.after(0),
        ),
{
    let prefix = namespace_descriptors(namespaces);
    let mut out: Vec<Symbol> = Vec::new();
    proof {
        views_empty::<Symbol>();
    }
    if ctx.tree.len() > 0 {
        collect_chunk(ctx, 0, &prefix, &mut out);
    }
    out
}

// ── Imports ──────────────────────────────────────────────────────────────────

/// The text of the string `i`: its content, or what stands between its quotes.
pub open spec fn string_text(t: Syntax, i: int) -> Seq<char> {
    match t.child_of_kind(i, "string_content"@) {
        Some(content) => t.text(content),
        None => match unquoted_by(t.text(i), "'"@) {
            Some(inner) => inner,
            None => match unquoted_by(t.text(i), "\""@) {
                Some(inner) => inner,
                None => t.text(i),
            },
        },
    }
}

/// The first string among the arguments `lo..hi` that has a content, or a text
/// between its quotes.
pub open spec fn string_arg_in(t: Syntax, lo: int, hi: int) -> Option<Seq<char>>
    decreases hi - lo,
{
    if lo >= hi {
        None
    } else if t.kind(lo) == "string"@ && (t.child_of_kind(lo, "string_content"@) is Some
        || string_text(t, lo).len() > 0) {
        Some(string_text(t, lo))
    } else {
        string_arg_in(t, t.next(lo, hi), hi)
    }
}

/// The first string among the arguments `i`.
fn extract_string_arg(tree: &SyntaxTree, i: usize) -> (text: Option<String>)
    requires
        i < tree@.len(),
    ensures
        opt_text(text) == string_arg_in(tree@, i + 1, tree@.after(i as int)),
{
    let hi: usize = tree.after(i);
    let mut lo: usize = i + 1;
    while lo < hi
        invariant
            i < lo,
            hi == tree@.after(i as int),
            hi <= tree@.len(),
            string_arg_in(tree@, lo as int, hi as int) == string_arg_in(tree@, i + 1, hi as int),
        decreases hi - lo,
    {
        if tree.is(lo, "string") {
            if let Some(content) = tree.child_of_kind(lo, "string_content") {
                return Some(tree.text(content).to_owned());
            }
            let raw = tree.text(lo);
            let stripped = match strip_quotes(raw, "'") {
                Some(inner) => inner,
                None => match strip_quotes(raw, "\"") {
                    Some(inner) => inner,
                    None => raw,
                },
            };
            if !is_empty(stripped) {
                return Some(stripped.to_owned());
            }
        }
        lo = tree.next(lo, hi);
    }
    None
}

/// The text of the first chain of names among the arguments `i`.
pub open spec fn dot_arg(t: Syntax, i: int) -> Option<Seq<char>> {
    match t.child_of_kind(i, "dot_index_expression"@) {
        Some(chain) => Some(t.text(chain)),
        None => None,
    }
}

/// The text of the first chain of names among the arguments `i`.
fn extract_dot_expr_arg(tree: &SyntaxTree, i: usize) -> (text: Option<String>)
    requires
        i < tree@.len(),
    ensures
        opt_text(text) == dot_arg(tree@, i as int),
{
    match tree.child_of_kind(i, "dot_index_expression") {
        Some(chain) => Some(tree.text(chain).to_owned()),
        None => None,
    }
}

/// What the arguments `i` of `require` name: a string, or a chain of names.
pub open spec fn required_path(t: Syntax, i: int) -> Option<Seq<char>> {
    match string_arg_in(t, i + 1, t.after(i)) {
        Some(path) => Some(path),
        None => dot_arg(t, i),
    }
}

/// The import of the call `i` of `require`: the last name of the path that it is
/// called with, where that is not empty.
pub open spec fn import_of(t: Syntax, file: Seq<char>, module: Seq<char>, i: int) -> Seq<
    ReferenceView,
> {
    if t.kind(i) == "function_call"@ {
        match (t.child(i, "name"@), t.child(i, "arguments"@)) {
            (Some(n), Some(args)) => if t.kind(n) == "identifier"@ && t.text(n) == "require"@ {
                match required_path(t, args) {
                    Some(path) => if after_last(path, '.').len() > 0 {
                        seq![import_at(t, file, n, after_last(path, '.'), module, path)]
                    } else {
                        Seq::empty()
                    },
                    None => Seq::empty(),
                }
            } else {
                Seq::empty()
            },
            _ => Seq::empty(),
        }
    } else {
        Seq::empty()
    }
}

/// Adds the import of the call `i` of `require`.
fn push_import(tree: &SyntaxTree, file: &str, module: &str, i: usize, out: &mut Vec<Reference>)
    requires
        i < tree@.len(),
    ensures
        views(final(out)@) == views(old(out)@) + import_of(tree@, file@, module@, i as int),
{
    if tree.is(i, "function_call") {
        if let Some(n) = tree.child(i, "name") {
            if let Some(args) = tree.child(i, "arguments") {
                if tree.is(n, "identifier") && same(tree.text(n), "require") {
                    let path = match extract_string_arg(tree, args) {
                        Some(path) => Some(path),
                        None => extract_dot_expr_arg(tree, args),
                    };
                    if let Some(path) = path {
                        let leaf = after_last_text(path.as_str(), '.');
                        if !is_empty(leaf) {
                            push_import_ref(out, tree, file, n, leaf, module, path.as_str());
                        }
                    }
                }
            }
        }
    }
}

/// The imports in the subtree of node `i`.
pub open spec fn imports_at(
    t: Syntax,
    file: Seq<char>,
    module: Seq<char>,
    i: int,
) -> Seq<ReferenceView>
    decreases t.left(i), 0nat,
{
    if !t.has(i) {
        Seq::empty()
    } else {
        import_of(t, file, module, i) + imports_in(t, file, module, i + 1, t.after(i))
    }
}

/// The imports in the subtrees of the nodes `lo..hi`.
pub open spec fn imports_in(
    t: Syntax,
    file: Seq<char>,
    module: Seq<char>,
    lo: int,
    hi: int,
) -> Seq<ReferenceView>
    decreases t.left(lo), 1nat,
{
    if lo >= hi || !t.has(lo) {
        Seq::empty()
    } else {
        imports_at(t, file, module, lo) + imports_in(t, file, module, t.next(lo, hi), hi)
    }
}

/// Adds the imports in the subtree of node `i`.
fn collect_require_imports(
    tree: &SyntaxTree,
    i: usize,
    file: &str,
    module: &str,
    out: &mut Vec<Reference>,
)
    requires
        i < tree@.len(),
    ensures
        views(final(out)@) == views(old(out)@) + imports_at(tree@, file@, module@, i as int),
    decreases tree@.left(i as int),
{
    push_import(tree, file, module, i, out);
    let hi: usize = tree.after(i);
    let mut lo: usize = i + 1;
    while lo < hi
        invariant
            i < lo,
            i < tree@.len(),
            hi == tree@.after(i as int),
            hi <= tree@.len(),
            views(out@) + imports_in(tree@, file@, module@, lo as int, hi as int)
                == views(old(out)@)
                + imports_at(tree@, file@, module@, i as int),
        decreases hi - lo,
    {
        collect_require_imports(tree, lo, file, module, out);
        lo = tree.next(lo, hi);
    }
}

/// The imports of node `i` itself, for each `i`.
pub open spec fn imports_of_nodes(
    t: Syntax,
    file: Seq<char>,
    module: Seq<char>,
) -> spec_fn(int) -> Seq<ReferenceView> {
    |j: int| import_of(t, file, module, j)
}

/// The imports in a subtree are those of its nodes, in document order: none is missed
/// and none is reported twice.
pub proof fn imports_in_document_order(t: Syntax, file: Seq<char>, module: Seq<char>, i: int)
    requires
        t.nested(),
        t.has(i),
    ensures
        imports_at(t, file, module, i) == in_order(
            imports_of_nodes(t, file, module),
            i,
            t.after(i),
        ),
    decreases t.left(i), 0nat,
{
    let items = imports_of_nodes(t, file, module);
    imports_of_siblings(t, file, module, i + 1, t.after(i));
    assert(in_order(items, i, t.after(i)) == items(i) + in_order(items, i + 1, t.after(i)));
    assert(Seq::<ReferenceView>::empty() + items(i) =~= items(i) + Seq::<ReferenceView>::empty());
}

proof fn imports_of_siblings(t: Syntax, file: Seq<char>, module: Seq<char>, lo: int, hi: int)
    requires
        t.nested(),
        t.closed_range(lo, hi),
    ensures
        imports_in(t, file, module, lo, hi) == in_order(imports_of_nodes(t, file, module), lo, hi),
    decreases t.left(lo), 1nat,
{
    if lo < hi {
        let items = imports_of_nodes(t, file, module);
        imports_in_document_order(t, file, module, lo);
        imports_of_siblings(t, file, module, t.after(lo), hi);
        in_order_split(items, lo, t.after(lo), hi);
    }
}

/// The first `n` references, without those named `require`.
pub open spec fn not_require(references: Seq<ReferenceView>, n: int) -> Seq<ReferenceView>
    decreases n,
{
    if n <= 0 {
        Seq::empty()
    } else {
        not_require(references, n - 1) + if references[n - 1].name == "require"@ {
            Seq::empty()
        } else {
            seq![references[n - 1]]
        }
    }
}

/// The references that are not named `require`.
fn drop_require(references: Vec<Reference>) -> (kept: Vec<Reference>)
    ensures
        views(kept@) == not_require(views(references@), references@.len() as int),
{
    let ghost all = references@;
    let mut kept: Vec<Reference> = Vec::new();
    proof {
        views_empty::<Reference>();
    }
    for r in it: references
        invariant
            it.seq() == all,
            views(kept@) == not_require(views(all), it.index()),
    {
        if !same(r.name.as_str(), "require") {
            put(&mut kept, r);
        }
    }
    kept
}

// ── Reads and writes ─────────────────────────────────────────────────────────

/// Whether the identifier `i` stands where it is not read: where it is called,
/// introduced, assigned to, or names a member or a field.
pub open spec fn not_read(t: Syntax, i: int) -> bool {
    match t.parent(i) {
        None => true,
        Some(p) => {
            let kind = t.kind(p);
            if kind == "function_call"@ || kind == "function_declaration"@ || kind == "field"@ {
                t.child(p, "name"@) == Some(i)
            } else if kind == "dot_index_expression"@ {
                t.child(p, "field"@) == Some(i)
            } else if kind == "method_index_expression"@ {
                t.child(p, "method"@) == Some(i)
            } else {
                kind == "variable_list"@ || kind == "parameters"@
            }
        },
    }
}

/// Whether the identifier `i` stands where it is not read.
fn is_non_read_position(tree: &SyntaxTree, i: usize) -> (b: bool)
    ensures
        b == not_read(tree@, i as int),
{
    match tree.parent(i) {
        None => true,
        Some(p) => {
            if tree.is(p, "function_call") || tree.is(p, "function_declaration") || tree.is(
                p,
                "field",
            ) {
                tree.is_child(p, "name", i)
            } else if tree.is(p, "dot_index_expression") {
                tree.is_child(p, "field", i)
            } else if tree.is(p, "method_index_expression") {
                tree.is_child(p, "method", i)
            } else {
                tree.is(p, "variable_list") || tree.is(p, "parameters")
            }
        },
    }
}

/// The read that the identifier `i` is, where it is long enough and stands where
/// it is read.
pub open spec fn read_of(t: Syntax, file: Seq<char>, i: int) -> Seq<ReferenceView> {
    if (t.kind(i) == "identifier"@) && reportable(t.text(i)) && !not_read(t, i) {
        seq![reference_at(t, file, i, t.text(i), RefRole::Read)]
    } else {
        Seq::empty()
    }
}

/// The reads in the subtree of node `i`.
pub open spec fn reads_at(t: Syntax, file: Seq<char>, i: int) -> Seq<ReferenceView>
    decreases t.left(i), 0nat,
{
    if !t.has(i) {
        Seq::empty()
    } else if t.kind(i) == "identifier"@ {
        read_of(t, file, i)
    } else {
        read_of(t, file, i) + reads_in(t, file, i + 1, t.after(i))
    }
}

/// The reads in the subtrees of the nodes `lo..hi`.
pub open spec fn reads_in(t: Syntax, file: Seq<char>, lo: int, hi: int) -> Seq<ReferenceView>
    decreases t.left(lo), 1nat,
{
    if lo >= hi || !t.has(lo) {
        Seq::empty()
    } else {
        reads_at(t, file, lo) + reads_in(t, file, t.next(lo, hi), hi)
    }
}

/// Adds the reads in the subtree of node `i`.
fn collect_read_references(tree: &SyntaxTree, i: usize, file: &str, out: &mut Vec<Reference>)
    requires
        i < tree@.len(),
    ensures
        views(final(out)@) == views(old(out)@) + reads_at(tree@, file@, i as int),
    decreases tree@.left(i as int),
{
    if tree.is(i, "identifier") {
        let name = tree.text(i);
        if is_reportable(name) && !is_non_read_position(tree, i) {
            push_ref(out, tree, file, i, name, RefRole::Read);
        }
    }
    if tree.is(i, "identifier") {
        return ;
    }
    let hi: usize = tree.after(i);
    let mut lo: usize = i + 1;
    while lo < hi
        invariant
            i < lo,
            i < tree@.len(),
            hi == tree@.after(i as int),
            hi <= tree@.len(),
            views(out@) + reads_in(tree@, file@, lo as int, hi as int) == views(old(out)@)
                + reads_at(tree@, file@, i as int),
        decreases hi - lo,
    {
        collect_read_references(tree, lo, file, out);
        lo = tree.next(lo, hi);
    }
}

/// The reads of node `i` itself, for each `i`.
pub open spec fn reads_of_nodes(t: Syntax, file: Seq<char>) -> spec_fn(int) -> Seq<ReferenceView> {
    |j: int| read_of(t, file, j)
}

/// The reads in a subtree are those of its nodes, in document order: none is missed
/// and none is reported twice.
pub proof fn reads_in_document_order(t: Syntax, file: Seq<char>, i: int)
    requires
        t.nested(),
        t.has(i),
        forall|j: int, k: int|
            t.has(j) && t.kind(j) == "identifier"@ && j < k < #[trigger] t.after(j)
                ==> #[trigger] t.kind(k) != "identifier"@,
    ensures
        reads_at(t, file, i) == in_order(reads_of_nodes(t, file), i, t.after(i)),
    decreases t.left(i), 0nat,
{
    let items = reads_of_nodes(t, file);
    if t.kind(i) == "identifier"@ {
        in_order_none(items, i + 1, t.after(i));
    } else {
        reads_of_siblings(t, file, i + 1, t.after(i));
    }
    assert(in_order(items, i, t.after(i)) == items(i) + in_order(items, i + 1, t.after(i)));
    assert(Seq::<ReferenceView>::empty() + items(i) =~= items(i) + Seq::<ReferenceView>::empty());
}

proof fn reads_of_siblings(t: Syntax, file: Seq<char>, lo: int, hi: int)
    requires
        t.nested(),
        t.closed_range(lo, hi),
        forall|j: int, k: int|
            t.has(j) && t.kind(j) == "identifier"@ && j < k < #[trigger] t.after(j)
                ==> #[trigger] t.kind(k) != "identifier"@,
    ensures
        reads_in(t, file, lo, hi) == in_order(reads_of_nodes(t, file), lo, hi),
    decreases t.left(lo), 1nat,
{
    if lo < hi {
        let items = reads_of_nodes(t, file);
        reads_in_document_order(t, file, lo);
        reads_of_siblings(t, file, t.after(lo), hi);
        in_order_split(items, lo, t.after(lo), hi);
    }
}

/// The write to the target `i` of an assignment, where it is an identifier that
/// is long enough.
pub open spec fn write_to(t: Syntax, file: Seq<char>, i: int) -> Seq<ReferenceView> {
    if t.kind(i) == "identifier"@ && reportable(t.text(i)) {
        seq![reference_at(t, file, i, t.text(i), RefRole::Write)]
    } else {
        Seq::empty()
    }
}

/// The writes to the targets `lo..hi`.
pub open spec fn writes_to(t: Syntax, file: Seq<char>, lo: int, hi: int) -> Seq<ReferenceView>
    decreases hi - lo,
{
    if lo >= hi {
        Seq::empty()
    } else {
        write_to(t, file, lo) + writes_to(t, file, t.next(lo, hi), hi)
    }
}

/// Adds the writes to the targets in the list `i`.
fn collect_targets(tree: &SyntaxTree, i: usize, file: &str, out: &mut Vec<Reference>)
    requires
        i < tree@.len(),
    ensures
        views(final(out)@)
            == views(old(out)@) + writes_to(tree@, file@, i + 1, tree@.after(i as int)),
{
    let hi: usize = tree.after(i);
    let mut lo: usize = i + 1;
    while lo < hi
        invariant
            i < lo,
            i < tree@.len(),
            hi == tree@.after(i as int),
            hi <= tree@.len(),
            views(out@) + writes_to(tree@, file@, lo as int, hi as int) == views(old(out)@)
                + writes_to(tree@, file@, i + 1, hi as int),
        decreases hi - lo,
    {
        let name = tree.text(lo);
        if tree.is(lo, "identifier") && is_reportable(name) {
            push_ref(out, tree, file, lo, name, RefRole::Write);
        }
        lo = tree.next(lo, hi);
    }
}

/// Whether node `i` is the assignment of a declaration, which introduces names
/// and writes to none.
pub open spec fn declares(t: Syntax, i: int) -> bool {
    match t.parent(i) {
        Some(p) => t.kind(p) == "variable_declaration"@,
        None => false,
    }
}

/// The writes of the assignment `i`.
pub open spec fn assignment_writes(t: Syntax, file: Seq<char>, i: int) -> Seq<ReferenceView> {
    if t.kind(i) == "assignment_statement"@ && !declares(t, i) {
        match t.child_of_kind(i, "variable_list"@) {
            Some(targets) => writes_to(t, file, targets + 1, t.after(targets)),
            None => Seq::empty(),
        }
    } else {
        Seq::empty()
    }
}

/// The writes in the subtree of node `i`.
pub open spec fn writes_at(t: Syntax, file: Seq<char>, i: int) -> Seq<ReferenceView>
    decreases t.left(i), 0nat,
{
    if !t.has(i) {
        Seq::empty()
    } else {
        assignment_writes(t, file, i) + writes_in(t, file, i + 1, t.after(i))
    }
}

/// The writes in the subtrees of the nodes `lo..hi`.
pub open spec fn writes_in(t: Syntax, file: Seq<char>, lo: int, hi: int) -> Seq<ReferenceView>
    decreases t.left(lo), 1nat,
{
    if lo >= hi || !t.has(lo) {
        Seq::empty()
    } else {
        writes_at(t, file, lo) + writes_in(t, file, t.next(lo, hi), hi)
    }
}

/// Adds the writes in the subtree of node `i`.
fn collect_write_references(tree: &SyntaxTree, i: usize, file: &str, out: &mut Vec<Reference>)
    requires
        i < tree@.len(),
    ensures
        views(final(out)@) == views(old(out)@) + writes_at(tree@, file@, i as int),
    decreases tree@.left(i as int),
{
    if tree.is(i, "assignment_statement") {
        let declares: bool = match tree.parent(i) {
            Some(p) => tree.is(p, "variable_declaration"),
            None => false,
        };
        if !declares {
            if let Some(targets) = tree.child_of_kind(i, "variable_list") {
                collect_targets(tree, targets, file, out);
            }
        }
    }
    let hi: usize = tree.after(i);
    let mut lo: usize = i + 1;
    while lo < hi
        invariant
            i < lo,
            i < tree@.len(),
            hi == tree@.after(i as int),
            hi <= tree@.len(),
            views(out@) + writes_in(tree@, file@, lo as int, hi as int) == views(old(out)@)
                + writes_at(tree@, file@, i as int),
        decreases hi - lo,
    {
        collect_write_references(tree, lo, file, out);
        lo = tree.next(lo, hi);
    }
}

/// The writes of node `i` itself, for each `i`.
pub open spec fn writes_of_nodes(t: Syntax, file: Seq<char>) -> spec_fn(int) -> Seq<ReferenceView> {
    |j: int| assignment_writes(t, file, j)
}

/// The writes in a subtree are those of its nodes, in document order: none is missed
/// and none is reported twice.
pub proof fn writes_in_document_order(t: Syntax, file: Seq<char>, i: int)
    requires
        t.nested(),
        t.has(i),
    ensures
        writes_at(t, file, i) == in_order(writes_of_nodes(t, file), i, t.after(i)),
    decreases t.left(i), 0nat,
{
    let items = writes_of_nodes(t, file);
    writes_of_siblings(t, file, i + 1, t.after(i));
    assert(in_order(items, i, t.after(i)) == items(i) + in_order(items, i + 1, t.after(i)));
    assert(Seq::<ReferenceView>::empty() + items(i) =~= items(i) + Seq::<ReferenceView>::empty());
}

proof fn writes_of_siblings(t: Syntax, file: Seq<char>, lo: int, hi: int)
    requires
        t.nested(),
        t.closed_range(lo, hi),
    ensures
        writes_in(t, file, lo, hi) == in_order(writes_of_nodes(t, file), lo, hi),
    decreases t.left(lo), 1nat,
{
    if lo < hi {
        let items = writes_of_nodes(t, file);
        writes_in_document_order(t, file, lo);
        writes_of_siblings(t, file, t.after(lo), hi);
        in_order_split(items, lo, t.after(lo), hi);
    }
}

// ── Scopes ───────────────────────────────────────────────────────────────────

/// The scopes, with those that node `i` opens under the scope `parent` behind
/// them: a function opens one, in which the statements of its body stand; so
/// does any other block.
pub open spec fn scopes_with(t: Syntax, i: int, parent: ScopeId, scopes: Seq<Scope>) -> Seq<Scope>
    decreases t.left(i), 0nat,
{
    if !t.has(i) {
        scopes
    } else if t.kind(i) == "function_declaration"@ || t.kind(i) == "function_definition"@ {
        let opened = scopes.push(
            Scope { parent: Some(parent), span: span_at(t, i), kind: ScopeKind::Function },
        );
        match t.child(i, "body"@) {
            Some(body) => scopes_with_all(
                t,
                body + 1,
                t.after(body),
                scopes.len() as usize,
                opened,
            ),
            None => opened,
        }
    } else if t.kind(i) == "block"@ {
        let opened = scopes.push(
            Scope { parent: Some(parent), span: span_at(t, i), kind: ScopeKind::Block },
        );
        scopes_with_all(t, i + 1, t.after(i), scopes.len() as usize, opened)
    } else {
        scopes_with_all(t, i + 1, t.after(i), parent, scopes)
    }
}

/// The scopes, with those that the nodes `lo..hi` open under the scope `parent`
/// behind them.
pub open spec fn scopes_with_all(
    t: Syntax,
    lo: int,
    hi: int,
    parent: ScopeId,
    scopes: Seq<Scope>,
) -> Seq<Scope>
    decreases t.left(lo), 1nat,
{
    if lo >= hi || !t.has(lo) {
        scopes
    } else {
        scopes_with_all(t, t.next(lo, hi), hi, parent, scopes_with(t, lo, parent, scopes))
    }
}

/// The scopes of a Lua file.
pub open spec fn scopes_of(t: Syntax, source_len: int) -> Seq<Scope> {
    scopes_with_all(t, 1, t.after(0), 0, seq![module_scope(source_len)])
}

/// The scopes of a Lua file. The first is that of the file as a whole.
pub fn collect_scopes(tree: &SyntaxTree, source_len: usize) -> (scopes: Vec<Scope>)
    ensures
        scopes@ == scopes_of(tree@, source_len as int),
        are_file_scopes(scopes@, source_len as int),
        spans_nest(tree@) && span_at(tree@, 0).end <= source_len ==> scopes_nest(scopes@),
{
    let mut scopes: Vec<Scope> = Vec::new();
    push_scope(&mut scopes, None, ByteSpan { start: 0, end: source_len }, ScopeKind::Module);
    assert(scopes@ =~= seq![module_scope(source_len as int)]);
    if tree.len() > 0 {
        scope_all(tree, 0, 0, &mut scopes);
    }
    scopes
}

/// Opens the scopes of the children of node `i` under the scope `parent`.
fn scope_all(tree: &SyntaxTree, i: usize, parent: ScopeId, scopes: &mut Vec<Scope>)
    requires
        i < tree@.len(),
        parent < old(scopes)@.len(),
        is_scope_tree(old(scopes)@),
    ensures
        final(scopes)@ == scopes_with_all(
            tree@,
            i + 1,
            tree@.after(i as int),
            parent,
            old(scopes)@,
        ),
        is_scope_tree(final(scopes)@),
        extends(final(scopes)@, old(scopes)@),
        nests_under(tree@, i as int, parent, old(scopes)@) ==> scopes_nest(final(scopes)@),
    decreases tree@.left(i as int), 0nat,
{
    let hi: usize = tree.after(i);
    let mut lo: usize = i + 1;
    while lo < hi
        invariant
            i < lo,
            i < tree@.len(),
            hi == tree@.after(i as int),
            hi <= tree@.len(),
            parent < old(scopes)@.len(),
            is_scope_tree(scopes@),
            extends(scopes@, old(scopes)@),
            nests_under(tree@, i as int, parent, old(scopes)@) ==> scopes_nest(scopes@),
            scopes_with_all(tree@, lo as int, hi as int, parent, scopes@) == scopes_with_all(
                tree@,
                i + 1,
                hi as int,
                parent,
                old(scopes)@,
            ),
        decreases hi - lo,
    {
        scope_dfs(tree, lo, parent, scopes);
        lo = tree.next(lo, hi);
    }
}

/// Opens the scopes of node `i` under the scope `parent`.
fn scope_dfs(tree: &SyntaxTree, i: usize, parent: ScopeId, scopes: &mut Vec<Scope>)
    requires
        i < tree@.len(),
        parent < old(scopes)@.len(),
        is_scope_tree(old(scopes)@),
    ensures
        final(scopes)@ == scopes_with(tree@, i as int, parent, old(scopes)@),
        is_scope_tree(final(scopes)@),
        extends(final(scopes)@, old(scopes)@),
        nests_under(tree@, i as int, parent, old(scopes)@) ==> scopes_nest(final(scopes)@),
    decreases tree@.left(i as int), 1nat,
{
    if tree.is(i, "function_declaration") || tree.is(i, "function_definition") {
        let id: usize = push_scope(scopes, Some(parent), node_span(tree, i), ScopeKind::Function);
        if let Some(body) = tree.child(i, "body") {
            scope_all(tree, body, id, scopes);
        }
    } else if tree.is(i, "block") {
        let id: usize = push_scope(scopes, Some(parent), node_span(tree, i), ScopeKind::Block);
        scope_all(tree, i, id, scopes);
    } else {
        scope_all(tree, i, parent, scopes);
    }
}

// ── Bindings ─────────────────────────────────────────────────────────────────

/// The name that the identifier `i` introduces, where it is long enough and not
/// one of the file as a whole.
pub open spec fn bound_at(t: Syntax, scopes: Seq<Scope>, i: int, kind: BindingKind) -> Seq<
    BindingView,
> {
    if t.kind(i) == "identifier"@ && reportable(t.text(i)) && !at_file_level(scopes, t.start(i)) {
        seq![local_binding(scopes, t.text(i), t.start(i), kind, None)]
    } else {
        Seq::empty()
    }
}

/// Adds the name that the identifier `i` introduces.
fn push_bound(
    tree: &SyntaxTree,
    scopes: &Vec<Scope>,
    i: usize,
    kind: BindingKind,
    out: &mut Vec<Binding>,
)
    ensures
        views(final(out)@) == views(old(out)@) + bound_at(tree@, scopes@, i as int, kind),
{
    if tree.is(i, "identifier") {
        let name = tree.text(i);
        let intro: usize = tree.start(i);
        if is_reportable(name) && !is_file_level(intro, scopes) {
            push_binding(out, name.to_owned(), intro, kind, scopes);
        }
    }
}

/// The names that the parameters `lo..hi` introduce.
pub open spec fn params_in(t: Syntax, scopes: Seq<Scope>, lo: int, hi: int) -> Seq<BindingView>
    decreases hi - lo,
{
    if lo >= hi {
        Seq::empty()
    } else {
        (if t.named(lo) {
            bound_at(t, scopes, lo, BindingKind::Param)
        } else {
            Seq::empty()
        }) + params_in(t, scopes, t.next(lo, hi), hi)
    }
}

/// Adds the names that the parameters in the list `i` introduce.
fn collect_params(tree: &SyntaxTree, i: usize, scopes: &Vec<Scope>, out: &mut Vec<Binding>)
    requires
        i < tree@.len(),
    ensures
        views(final(out)@)
            == views(old(out)@) + params_in(tree@, scopes@, i + 1, tree@.after(i as int)),
{
    let hi: usize = tree.after(i);
    let mut lo: usize = i + 1;
    while lo < hi
        invariant
            i < lo,
            i < tree@.len(),
            hi == tree@.after(i as int),
            hi <= tree@.len(),
            views(out@) + params_in(tree@, scopes@, lo as int, hi as int) == views(old(out)@)
                + params_in(tree@, scopes@, i + 1, hi as int),
        decreases hi - lo,
    {
        if tree.named(lo) {
            push_bound(tree, scopes, lo, BindingKind::Param, out);
        }
        lo = tree.next(lo, hi);
    }
}

/// The names that the variables `lo..hi` introduce.
pub open spec fn locals_in(t: Syntax, scopes: Seq<Scope>, lo: int, hi: int) -> Seq<BindingView>
    decreases hi - lo,
{
    if lo >= hi {
        Seq::empty()
    } else {
        bound_at(t, scopes, lo, BindingKind::Local) + locals_in(t, scopes, t.next(lo, hi), hi)
    }
}

/// Adds the names that the variables in the list `i` introduce.
fn collect_locals(tree: &SyntaxTree, i: usize, scopes: &Vec<Scope>, out: &mut Vec<Binding>)
    requires
        i < tree@.len(),
    ensures
        views(final(out)@)
            == views(old(out)@) + locals_in(tree@, scopes@, i + 1, tree@.after(i as int)),
{
    let hi: usize = tree.after(i);
    let mut lo: usize = i + 1;
    while lo < hi
        invariant
            i < lo,
            i < tree@.len(),
            hi == tree@.after(i as int),
            hi <= tree@.len(),
            views(out@) + locals_in(tree@, scopes@, lo as int, hi as int) == views(old(out)@)
                + locals_in(tree@, scopes@, i + 1, hi as int),
        decreases hi - lo,
    {
        push_bound(tree, scopes, lo, BindingKind::Local, out);
        lo = tree.next(lo, hi);
    }
}

/// The names that the parts `lo..hi` of a declaration introduce, with a value or
/// without.
pub open spec fn declared_in(t: Syntax, scopes: Seq<Scope>, lo: int, hi: int) -> Seq<BindingView>
    decreases hi - lo,
{
    if lo >= hi {
        Seq::empty()
    } else {
        (if t.kind(lo) == "variable_list"@ {
            locals_in(t, scopes, lo + 1, t.after(lo))
        } else if t.kind(lo) == "assignment_statement"@ {
            match t.child_of_kind(lo, "variable_list"@) {
                Some(names) => locals_in(t, scopes, names + 1, t.after(names)),
                None => Seq::empty(),
            }
        } else {
            Seq::empty()
        }) + declared_in(t, scopes, t.next(lo, hi), hi)
    }
}

/// Adds the names that the declaration `i` introduces.
fn collect_declared(tree: &SyntaxTree, i: usize, scopes: &Vec<Scope>, out: &mut Vec<Binding>)
    requires
        i < tree@.len(),
    ensures
        views(final(out)@)
            == views(old(out)@) + declared_in(tree@, scopes@, i + 1, tree@.after(i as int)),
{
    let hi: usize = tree.after(i);
    let mut lo: usize = i + 1;
    while lo < hi
        invariant
            i < lo,
            i < tree@.len(),
            hi == tree@.after(i as int),
            hi <= tree@.len(),
            views(out@) + declared_in(tree@, scopes@, lo as int, hi as int) == views(old(out)@)
                + declared_in(tree@, scopes@, i + 1, hi as int),
        decreases hi - lo,
    {
        if tree.is(lo, "variable_list") {
            collect_locals(tree, lo, scopes, out);
        } else if tree.is(lo, "assignment_statement") {
            if let Some(names) = tree.child_of_kind(lo, "variable_list") {
                collect_locals(tree, names, scopes, out);
            }
        }
        lo = tree.next(lo, hi);
    }
}

/// The names that node `i` itself introduces.
pub open spec fn introduced(t: Syntax, scopes: Seq<Scope>, i: int) -> Seq<BindingView> {
    if t.kind(i) == "function_declaration"@ || t.kind(i) == "function_definition"@ {
        match t.child(i, "parameters"@) {
            Some(params) => params_in(t, scopes, params + 1, t.after(params)),
            None => Seq::empty(),
        }
    } else if t.kind(i) == "variable_declaration"@ {
        declared_in(t, scopes, i + 1, t.after(i))
    } else {
        Seq::empty()
    }
}

/// The names that are introduced in the subtree of node `i`.
pub open spec fn bindings_at(t: Syntax, scopes: Seq<Scope>, i: int) -> Seq<BindingView>
    decreases t.left(i), 0nat,
{
    if !t.has(i) {
        Seq::empty()
    } else {
        introduced(t, scopes, i) + bindings_in(t, scopes, i + 1, t.after(i))
    }
}

/// The names that are introduced in the subtrees of the nodes `lo..hi`.
pub open spec fn bindings_in(t: Syntax, scopes: Seq<Scope>, lo: int, hi: int) -> Seq<BindingView>
    decreases t.left(lo), 1nat,
{
    if lo >= hi || !t.has(lo) {
        Seq::empty()
    } else {
        bindings_at(t, scopes, lo) + bindings_in(t, scopes, t.next(lo, hi), hi)
    }
}

/// Adds the names that are introduced in the subtree of node `i`.
fn collect_bindings_dfs(tree: &SyntaxTree, i: usize, scopes: &Vec<Scope>, out: &mut Vec<Binding>)
    requires
        i < tree@.len(),
    ensures
        views(final(out)@) == views(old(out)@) + bindings_at(tree@, scopes@, i as int),
    decreases tree@.left(i as int),
{
    if tree.is(i, "function_declaration") || tree.is(i, "function_definition") {
        if let Some(params) = tree.child(i, "parameters") {
            collect_params(tree, params, scopes, out);
        }
    } else if tree.is(i, "variable_declaration") {
        collect_declared(tree, i, scopes, out);
    }
    let hi: usize = tree.after(i);
    let mut lo: usize = i + 1;
    while lo < hi
        invariant
            i < lo,
            i < tree@.len(),
            hi == tree@.after(i as int),
            hi <= tree@.len(),
            views(out@) + bindings_in(tree@, scopes@, lo as int, hi as int) == views(old(out)@)
                + bindings_at(tree@, scopes@, i as int),
        decreases hi - lo,
    {
        collect_bindings_dfs(tree, lo, scopes, out);
        lo = tree.next(lo, hi);
    }
}

/// The names that are introduced of node `i` itself, for each `i`.
pub open spec fn bindings_of_nodes(
    t: Syntax,
    scopes: Seq<Scope>,
) -> spec_fn(int) -> Seq<BindingView> {
    |j: int| introduced(t, scopes, j)
}

/// The names that are introduced in a subtree are those of its nodes, in
/// document order: none is missed and none is reported twice.
pub proof fn bindings_in_document_order(t: Syntax, scopes: Seq<Scope>, i: int)
    requires
        t.nested(),
        t.has(i),
    ensures
        bindings_at(t, scopes, i) == in_order(bindings_of_nodes(t, scopes), i, t.after(i)),
    decreases t.left(i), 0nat,
{
    let items = bindings_of_nodes(t, scopes);
    bindings_of_siblings(t, scopes, i + 1, t.after(i));
    assert(in_order(items, i, t.after(i)) == items(i) + in_order(items, i + 1, t.after(i)));
    assert(Seq::<BindingView>::empty() + items(i) =~= items(i) + Seq::<BindingView>::empty());
}

proof fn bindings_of_siblings(t: Syntax, scopes: Seq<Scope>, lo: int, hi: int)
    requires
        t.nested(),
        t.closed_range(lo, hi),
    ensures
        bindings_in(t, scopes, lo, hi) == in_order(bindings_of_nodes(t, scopes), lo, hi),
    decreases t.left(lo), 1nat,
{
    if lo < hi {
        let items = bindings_of_nodes(t, scopes);
        bindings_in_document_order(t, scopes, lo);
        bindings_of_siblings(t, scopes, t.after(lo), hi);
        in_order_split(items, lo, t.after(lo), hi);
    }
}

/// The names that are introduced in a Lua file below the file as a whole.
fn collect_bindings(tree: &SyntaxTree, scopes: &Vec<Scope>) -> (out: Vec<Binding>)
    ensures
        views(out@) == bindings_at(tree@, scopes@, 0),
{
    let mut out: Vec<Binding> = Vec::new();
    proof {
        views_empty::<Binding>();
    }
    if tree.len() > 0 {
        collect_bindings_dfs(tree, 0, scopes, &mut out);
    }
    out
}

// ── Facts ────────────────────────────────────────────────────────────────────

/// The calls: names that are called, with the table that they are taken from.
pub const CALL_QUERY: &'static str = r#"
[
  (function_call name: (identifier) @callee)
  (function_call name: (dot_index_expression table: (identifier) @qualifier field: (identifier) @callee))
  (function_call name: (method_index_expression table: (identifier) @qualifier method: (identifier) @callee))
]
"#;

/// The references of a file of the language `lang`, without their scopes. A call
/// of `require` is an import and not a call.
pub open spec fn references_of(
    t: Syntax,
    file: Seq<char>,
    module: Seq<char>,
    found: Seq<Seq<CaptureView>>,
) -> Seq<ReferenceView> {
    let called = calls(t.source, file, found);
    not_require(called, called.len() as int) + imports_at(t, file, module, 0) + reads_at(t, file, 0)
        + writes_at(t, file, 0)
}

/// The facts of a file of the language `lang` with the nodes `t`, where `found`
/// are the matches of the query on calls.
pub open spec fn facts_of(
    lang: Language,
    t: Syntax,
    file: Seq<char>,
    found: Seq<Seq<CaptureView>>,
) -> FileFactsView {
    let source_len = byte_count(t.source) as int;
    let ns = namespaces_of(file);
    let defs = symbols_in(Ctx { tree: t, file, lang }, namespace_steps(ns), 1, t.after(0));
    let module = module_view(lang, ns, file, source_len);
    let scopes = scopes_of(t, source_len);
    let references = all_scoped(scopes, references_of(t, file, scip_text(module.id), found));
    FileFactsView {
        file,
        lang: lang.tag(),
        symbols: defs + seq![module],
        references,
        scopes,
        bindings: bindings_at(t, scopes, 0) + definitions_bound(defs) + imports_bound(
            scopes,
            references,
        ),
        ffi_exports: Seq::empty(),
    }
}

/// The facts of a file, from its nodes and the matches of the query on calls.
pub fn file_facts(lang: Language, tree: &SyntaxTree, file: &str, found: &Vec<Match>) -> (facts:
    FileFacts)
    ensures
        facts@ == facts_of(lang, tree@, file@, views(found@)),
        coherent(facts@, byte_count(tree@.source) as int),
        imports_are_bound(facts@),
{
    let source_len: usize = byte_length(tree.source());
    let namespaces = lua_namespaces(file);
    let ctx = ExtractCtx { tree, file, lang };
    let defs = collect_symbols(&ctx, &namespaces);
    let def_bindings = definition_bindings(&defs);
    let ghost own = views(defs@);
    let mut symbols = defs;
    let module = module_symbol(lang, namespaces.as_slice(), file, source_len);
    let module_id = module.id.to_scip_string();
    put(&mut symbols, module);
    let mut references = drop_require(collect_call_references(tree.source(), file, found));
    if tree.len() > 0 {
        collect_require_imports(tree, 0, file, module_id.as_str(), &mut references);
        collect_read_references(tree, 0, file, &mut references);
        collect_write_references(tree, 0, file, &mut references);
    }
    assert(views(references@) =~= references_of(tree@, file@, module_id@, views(found@)));
    let scopes = collect_scopes(tree, source_len);
    let ghost plain = views(references@);
    attach_reference_scopes(&mut references, &scopes);
    let mut bindings = collect_bindings(tree, &scopes);
    let ghost locals = views(bindings@);
    put_all(&mut bindings, def_bindings);
    put_all(&mut bindings, import_bindings(&references, &scopes));
    proof {
        views_empty::<FfiExport>();
    }
    let facts = FileFacts {
        file: file.to_owned(),
        lang: lang.as_str().to_owned(),
        symbols,
        references,
        scopes,
        bindings,
        ffi_exports: Vec::new(),
    };
    proof {
        let imports = imports_bound(facts@.scopes, facts@.references);
        facts_are_coherent(facts@, own, plain, locals, imports, source_len as int);
        facts_bind_imports(facts@, locals + definitions_bound(own));
    }
    facts
}

/// What is read from a file of the language `lang` that was parsed into `tree`.
pub open spec fn family_facts(lang: Language, tree: tree_sitter::Tree, file: Seq<char>) -> Result<
    FileFactsView,
    ErrorView,
> {
    match answer_to(tree, CALL_QUERY@) {
        None => Err(ErrorView::Query { path: file }),
        Some(found) => Ok(facts_of(lang, syntax_of(tree), file, found)),
    }
}

/// Reads a file of the language `lang`, which is Lua or one with its node kinds.
pub(crate) fn extract_lua_family(source: &str, file: &str, lang: Language) -> (result: Result<
    FileFacts,
    CodegraphError,
>)
    ensures
        if is_parseable(lang, source@) {
            exists|tree: tree_sitter::Tree| #[trigger]
                tree_origin(tree) == (lang, source@) && outcome(result) == family_facts(
                    lang,
                    tree,
                    file@,
                )
        } else {
            outcome(result) == Err::<FileFactsView, ErrorView>(ErrorView::Parse { path: file@ })
        },
        result matches Ok(facts) ==> coherent(facts@, byte_count(source@) as int),
{
    match parse(lang, source) {
        None => Err(CodegraphError::Parse { path: file.to_owned() }),
        Some(parsed) => match parsed.query(CALL_QUERY) {
            None => Err(CodegraphError::Query { path: file.to_owned() }),
            Some(found) => Ok(file_facts(lang, parsed.syntax(), file, &found)),
        },
    }
}

/// Reads Lua files.
pub struct LuaExtractor;

impl Extractor for LuaExtractor {
    open spec fn language(&self) -> Language {
        Language::Lua
    }

    open spec fn facts(&self, tree: tree_sitter::Tree, file: Seq<char>) -> Result<
        FileFactsView,
        ErrorView,
    > {
        family_facts(Language::Lua, tree, file)
    }

    fn lang(&self) -> (lang: Language) {
        Language::Lua
    }

    fn extract_facts(&self, source: &str, file: &str) -> (result: Result<
        FileFacts,
        CodegraphError,
    >) {
        extract_lua_family(source, file, Language::Lua)
    }
}

} // verus!
