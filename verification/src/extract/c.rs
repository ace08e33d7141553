//! The facts of C files.

use crate::error::{CodegraphError, ErrorView};
use crate::ffi::{abi_of_name, c_name_export_abi};
use crate::graph::types::{
    Binding, BindingKind, BindingView, ByteSpan, EntryPoint, EntryPointView, FfiExport,
    FfiExportView, FileFacts, FileFactsView, RefRole, Reference, ReferenceView, Scope, ScopeId,
    ScopeKind, Symbol, SymbolKind, SymbolView, TypeRefContext, Visibility,
};
use crate::items::{in_order, in_order_none, in_order_split, put, put_all, views, views_empty};
use crate::lang::Language;
use crate::parse::{answer_to, parse, syntax_of, CaptureView, Match};
use crate::symbol::{method_view, namespace_steps, Descriptor, DescriptorView};
use crate::syntax::{group_child_bounds, opt_index, Syntax, SyntaxTree};
use crate::text::{
    byte_count, byte_length, ends_with, has_suffix, same, segments, split_segments, strip_prefix,
    strip_suffix, without_prefix, without_suffix,
};
use vstd::prelude::*;

use super::{
    add_entry_point, all_scoped, are_file_scopes, at_file_level, attach_reference_scopes, calls,
    coherent, collect_call_references, define, defined_at, definition_bindings, definitions_bound,
    extends, facts_are_coherent, holds_declarations, is_file_level, is_reportable, is_scope_tree,
    is_section, is_static, local_binding, module_scope, module_symbol, module_view,
    namespace_descriptors, nests_under, node_span, push_binding, push_ref, push_scope,
    push_type_ref, reference_at, reportable, scopes_nest, span_at, spans_nest, static_at,
    type_reference_at, Ctx, ExtractCtx, Extractor,
};

verus! {

broadcast use group_child_bounds;

// ── Namespaces ───────────────────────────────────────────────────────────────

/// The namespaces of a C file: the pieces of its path without `src/` in front
/// and without `.c` or `.h` at the end.
pub open spec fn namespaces_of(file: Seq<char>) -> Seq<Seq<char>> {
    let stem = if has_suffix(file, ".c"@) {
        without_suffix(file, ".c"@)
    } else {
        without_suffix(file, ".h"@)
    };
    segments(without_prefix(stem, "src/"@), '/')
}

/// The namespaces of a C file.
pub fn c_namespaces(file: &str) -> (namespaces: Vec<String>)
    ensures
        views(namespaces@) == namespaces_of(file@),
{
    let stem = if ends_with(file, ".c") {
        strip_suffix(file, ".c")
    } else {
        strip_suffix(file, ".h")
    };
    split_segments(strip_prefix(stem, "src/"), '/')
}

// ── Exports ──────────────────────────────────────────────────────────────────

/// The export that a symbol stands for, if its kind and name make it one.
pub open spec fn export_of(s: SymbolView) -> Seq<FfiExportView> {
    if s.kind == SymbolKind::Function {
        match abi_of_name(s.name) {
            Some(abi) => seq![FfiExportView { symbol: s.id, abi, export_name: s.name }],
            None => Seq::empty(),
        }
    } else {
        Seq::empty()
    }
}

/// The exports among the first `n` symbols.
pub open spec fn exports_of(symbols: Seq<SymbolView>, n: int) -> Seq<FfiExportView>
    decreases n,
{
    if n <= 0 {
        Seq::empty()
    } else {
        exports_of(symbols, n - 1) + export_of(symbols[n - 1])
    }
}

/// The functions among symbols that another language reaches by their name.
pub fn jni_exports(symbols: &[Symbol]) -> (out: Vec<FfiExport>)
    ensures
        views(out@) == exports_of(views(symbols@), symbols@.len() as int),
{
    let mut out: Vec<FfiExport> = Vec::new();
    proof {
        views_empty::<FfiExport>();
    }
    let mut i: usize = 0;
    while i < symbols.len()
        invariant
            i <= symbols@.len(),
            views(out@) == exports_of(views(symbols@), i as int),
        decreases symbols@.len() - i,
    {
        let s = &symbols[i];
        if s.kind == SymbolKind::Function {
            if let Some(abi) = c_name_export_abi(s.name.as_str()) {
                put(
                    &mut out,
                    FfiExport {
                        symbol: s.id.copy(),
                        abi,
                        export_name: s.name.as_str().to_owned(),
                    },
                );
            }
        }
        i += 1;
    }
    out
}

// ── Declarators ──────────────────────────────────────────────────────────────

/// Whether node `i` is a name in a declarator.
pub open spec fn is_name(t: Syntax, i: int) -> bool {
    t.kind(i) == "identifier"@ || t.kind(i) == "type_identifier"@ || t.kind(i)
        == "field_identifier"@
}

/// The name that the declarator `i` introduces, and whether it is the name of a
/// function.
pub open spec fn declared(t: Syntax, i: int) -> Option<(Seq<char>, bool)>
    decreases t.left(i), 0nat,
{
    if !t.has(i) {
        None
    } else if is_name(t, i) {
        Some((t.text(i), false))
    } else if t.kind(i) == "function_declarator"@ {
        match t.child(i, "declarator"@) {
            Some(inner) => match declared(t, inner) {
                Some(found) => Some((found.0, true)),
                None => None,
            },
            None => None,
        }
    } else {
        match t.child(i, "declarator"@) {
            Some(inner) => declared(t, inner),
            None => declared_in(t, i + 1, t.after(i)),
        }
    }
}

/// The first name that one of the declarators `lo..hi` introduces.
pub open spec fn declared_in(t: Syntax, lo: int, hi: int) -> Option<(Seq<char>, bool)>
    decreases t.left(lo), 1nat,
{
    if lo >= hi || !t.has(lo) {
        None
    } else {
        match declared(t, lo) {
            Some(found) => Some(found),
            None => declared_in(t, t.next(lo, hi), hi),
        }
    }
}

/// A name and a flag, by their contents.
pub open spec fn opt_named(found: Option<(String, bool)>) -> Option<(Seq<char>, bool)> {
    match found {
        Some(pair) => Some((pair.0@, pair.1)),
        None => None,
    }
}

/// The name that the declarator `i` introduces, and whether it is the name of a
/// function.
fn declarator_name(tree: &SyntaxTree, i: usize) -> (found: Option<(String, bool)>)
    requires
        i < tree@.len(),
    ensures
        opt_named(found) == declared(tree@, i as int),
    decreases tree@.left(i as int),
{
    if tree.is(i, "identifier") || tree.is(i, "type_identifier") || tree.is(i, "field_identifier") {
        return Some((tree.text(i).to_owned(), false));
    }
    if tree.is(i, "function_declarator") {
        return match tree.child(i, "declarator") {
            Some(inner) => match declarator_name(tree, inner) {
                Some((name, _)) => Some((name, true)),
                None => None,
            },
            None => None,
        };
    }
    if let Some(inner) = tree.child(i, "declarator") {
        return declarator_name(tree, inner);
    }
    let hi: usize = tree.after(i);
    let mut lo: usize = i + 1;
    while lo < hi
        invariant
            i < lo,
            i < tree@.len(),
            hi == tree@.after(i as int),
            hi <= tree@.len(),
            declared_in(tree@, lo as int, hi as int) == declared(tree@, i as int),
        decreases hi - lo,
    {
        if let Some(found) = declarator_name(tree, lo) {
            return Some(found);
        }
        lo = tree.next(lo, hi);
    }
    None
}

/// The first `function_declarator` on the way down the declarator `i`.
pub open spec fn function_declarator(t: Syntax, i: int) -> Option<int>
    decreases t.left(i), 0nat,
{
    if !t.has(i) {
        None
    } else if t.kind(i) == "function_declarator"@ {
        Some(i)
    } else {
        match t.child(i, "declarator"@) {
            Some(inner) => function_declarator(t, inner),
            None => function_declarator_in(t, i + 1, t.after(i)),
        }
    }
}

/// The first `function_declarator` of the declarators `lo..hi`.
pub open spec fn function_declarator_in(t: Syntax, lo: int, hi: int) -> Option<int>
    decreases t.left(lo), 1nat,
{
    if lo >= hi || !t.has(lo) {
        None
    } else {
        match function_declarator(t, lo) {
            Some(found) => Some(found),
            None => function_declarator_in(t, t.next(lo, hi), hi),
        }
    }
}

/// The first `function_declarator` on the way down the declarator `i`.
fn find_function_declarator(tree: &SyntaxTree, i: usize) -> (found: Option<usize>)
    requires
        i < tree@.len(),
    ensures
        opt_index(found) == function_declarator(tree@, i as int),
        found matches Some(f) ==> i <= f < tree@.len(),
    decreases tree@.left(i as int),
{
    if tree.is(i, "function_declarator") {
        return Some(i);
    }
    if let Some(inner) = tree.child(i, "declarator") {
        return find_function_declarator(tree, inner);
    }
    let hi: usize = tree.after(i);
    let mut lo: usize = i + 1;
    while lo < hi
        invariant
            i < lo,
            i < tree@.len(),
            hi == tree@.after(i as int),
            hi <= tree@.len(),
            function_declarator_in(tree@, lo as int, hi as int) == function_declarator(
                tree@,
                i as int,
            ),
        decreases hi - lo,
    {
        if let Some(found) = find_function_declarator(tree, lo) {
            return Some(found);
        }
        lo = tree.next(lo, hi);
    }
    None
}

// ── Scopes ───────────────────────────────────────────────────────────────────

/// The scopes, with those that node `i` opens under the scope `parent` behind
/// them: a function opens one, in which the statements of its body stand; so
/// does any other block.
pub open spec fn scopes_with(t: Syntax, i: int, parent: ScopeId, scopes: Seq<Scope>) -> Seq<Scope>
    decreases t.left(i), 0nat,
{
    if !t.has(i) {
        scopes
    } else if t.kind(i) == "function_definition"@ {
        let opened = scopes.push(
            Scope { parent: Some(parent), span: span_at(t, i), kind: ScopeKind::Function },
        );
        match t.child(i, "body"@) {
            Some(body) => scopes_with_all(
                t,
                body + 1,
                t.after(body),
                scopes.len() as usize,
                opened,
            ),
            None => opened,
        }
    } else if t.kind(i) == "compound_statement"@ {
        let opened = scopes.push(
            Scope { parent: Some(parent), span: span_at(t, i), kind: ScopeKind::Block },
        );
        scopes_with_all(t, i + 1, t.after(i), scopes.len() as usize, opened)
    } else {
        scopes_with_all(t, i + 1, t.after(i), parent, scopes)
    }
}

/// The scopes, with those that the nodes `lo..hi` open under the scope `parent`
/// behind them.
pub open spec fn scopes_with_all(
    t: Syntax,
    lo: int,
    hi: int,
    parent: ScopeId,
    scopes: Seq<Scope>,
) -> Seq<Scope>
    decreases t.left(lo), 1nat,
{
    if lo >= hi || !t.has(lo) {
        scopes
    } else {
        scopes_with_all(t, t.next(lo, hi), hi, parent, scopes_with(t, lo, parent, scopes))
    }
}

/// The scopes of a C file.
pub open spec fn scopes_of(t: Syntax, source_len: int) -> Seq<Scope> {
    scopes_with_all(t, 1, t.after(0), 0, seq![module_scope(source_len)])
}

/// The scopes of a C file. The first is that of the file as a whole.
pub fn collect_scopes(tree: &SyntaxTree, source_len: usize) -> (scopes: Vec<Scope>)
    ensures
        scopes@ == scopes_of(tree@, source_len as int),
        are_file_scopes(scopes@, source_len as int),
        spans_nest(tree@) && span_at(tree@, 0).end <= source_len ==> scopes_nest(scopes@),
{
    let mut scopes: Vec<Scope> = Vec::new();
    push_scope(&mut scopes, None, ByteSpan { start: 0, end: source_len }, ScopeKind::Module);
    assert(scopes@ =~= seq![module_scope(source_len as int)]);
    if tree.len() > 0 {
        scope_all(tree, 0, 0, &mut scopes);
    }
    scopes
}

/// Opens the scopes of the children of node `i` under the scope `parent`.
fn scope_all(tree: &SyntaxTree, i: usize, parent: ScopeId, scopes: &mut Vec<Scope>)
    requires
        i < tree@.len(),
        parent < old(scopes)@.len(),
        is_scope_tree(old(scopes)@),
    ensures
        final(scopes)@ == scopes_with_all(
            tree@,
            i + 1,
            tree@.after(i as int),
            parent,
            old(scopes)@,
        ),
        is_scope_tree(final(scopes)@),
        extends(final(scopes)@, old(scopes)@),
        nests_under(tree@, i as int, parent, old(scopes)@) ==> scopes_nest(final(scopes)@),
    decreases tree@.left(i as int), 0nat,
{
    let hi: usize = tree.after(i);
    let mut lo: usize = i + 1;
    while lo < hi
        invariant
            i < lo,
            i < tree@.len(),
            hi == tree@.after(i as int),
            hi <= tree@.len(),
            parent < old(scopes)@.len(),
            is_scope_tree(scopes@),
            extends(scopes@, old(scopes)@),
            nests_under(tree@, i as int, parent, old(scopes)@) ==> scopes_nest(scopes@),
            scopes_with_all(tree@, lo as int, hi as int, parent, scopes@) == scopes_with_all(
                tree@,
                i + 1,
                hi as int,
                parent,
                old(scopes)@,
            ),
        decreases hi - lo,
    {
        scope_dfs(tree, lo, parent, scopes);
        lo = tree.next(lo, hi);
    }
}

/// Opens the scopes of node `i` under the scope `parent`.
fn scope_dfs(tree: &SyntaxTree, i: usize, parent: ScopeId, scopes: &mut Vec<Scope>)
    requires
        i < tree@.len(),
        parent < old(scopes)@.len(),
        is_scope_tree(old(scopes)@),
    ensures
        final(scopes)@ == scopes_with(tree@, i as int, parent, old(scopes)@),
        is_scope_tree(final(scopes)@),
        extends(final(scopes)@, old(scopes)@),
        nests_under(tree@, i as int, parent, old(scopes)@) ==> scopes_nest(final(scopes)@),
    decreases tree@.left(i as int), 1nat,
{
    if tree.is(i, "function_definition") {
        let id: usize = push_scope(scopes, Some(parent), node_span(tree, i), ScopeKind::Function);
        if let Some(body) = tree.child(i, "body") {
            scope_all(tree, body, id, scopes);
        }
    } else if tree.is(i, "compound_statement") {
        let id: usize = push_scope(scopes, Some(parent), node_span(tree, i), ScopeKind::Block);
        scope_all(tree, i, id, scopes);
    } else {
        scope_all(tree, i, parent, scopes);
    }
}

// ── Definitions ──────────────────────────────────────────────────────────────

/// A definition in a C file: its signature ends where its body starts.
pub open spec fn definition(
    c: Ctx,
    prefix: Seq<DescriptorView>,
    i: int,
    name: Seq<char>,
    kind: SymbolKind,
    visibility: Visibility,
    leaf: DescriptorView,
) -> SymbolView {
    defined_at(c, prefix, i, name, kind, visibility, leaf, "{;"@)
}

/// The linkage of node `i`: internal where it is `static`.
pub open spec fn linkage(t: Syntax, i: int) -> Visibility {
    if static_at(t, i) {
        Visibility::Private
    } else {
        Visibility::Public
    }
}

/// The kind and the name of the struct, union or enum that node `i` defines.
/// One without a body is only a mention.
pub open spec fn aggregate(t: Syntax, i: int) -> Option<(SymbolKind, Seq<char>)> {
    if t.kind(i) == "struct_specifier"@ || t.kind(i) == "union_specifier"@ || t.kind(i)
        == "enum_specifier"@ {
        let kind = if t.kind(i) == "enum_specifier"@ {
            SymbolKind::Enum
        } else {
            SymbolKind::Struct
        };
        match (t.child(i, "body"@), t.field_text(i, "name"@)) {
            (Some(_), Some(name)) => Some((kind, name)),
            _ => None,
        }
    } else {
        None
    }
}

/// A kind and a name, by their contents.
pub open spec fn opt_kind_name(found: Option<(SymbolKind, String)>) -> Option<
    (SymbolKind, Seq<char>),
> {
    match found {
        Some(pair) => Some((pair.0, pair.1@)),
        None => None,
    }
}

/// The kind and the name of the struct, union or enum that node `i` defines.
fn aggregate_type_symbol(tree: &SyntaxTree, i: usize) -> (found: Option<(SymbolKind, String)>)
    requires
        i < tree@.len(),
    ensures
        opt_kind_name(found) == aggregate(tree@, i as int),
{
    let kind = if tree.is(i, "enum_specifier") {
        SymbolKind::Enum
    } else if tree.is(i, "struct_specifier") || tree.is(i, "union_specifier") {
        SymbolKind::Struct
    } else {
        return None;
    };
    if tree.child(i, "body").is_none() {
        return None;
    }
    match tree.field_text(i, "name") {
        Some(name) => Some((kind, name)),
        None => None,
    }
}

/// The struct, union or enum that node `i` defines.
pub open spec fn aggregate_symbols(
    c: Ctx,
    prefix: Seq<DescriptorView>,
    i: int,
    visibility: Visibility,
) -> Seq<SymbolView> {
    match aggregate(c.tree, i) {
        Some((kind, name)) => seq![
            definition(c, prefix, i, name, kind, visibility, DescriptorView::Type(name)),
        ],
        None => Seq::empty(),
    }
}

/// Adds the struct, union or enum that node `i` defines.
fn push_aggregate(
    ctx: &ExtractCtx<'_>,
    prefix: &Vec<Descriptor>,
    i: usize,
    visibility: Visibility,
    out: &mut Vec<Symbol>,
)
    requires
        i < ctx.tree@.len(),
    ensures
        views(final(out)@) == views(old(out)@) + aggregate_symbols(
            ctx@,
            views(prefix@),
            i as int,
            visibility,
        ),
{
    if let Some((kind, name)) = aggregate_type_symbol(ctx.tree, i) {
        let leaf = Descriptor::Type(name.as_str().to_owned());
        let symbol = define(ctx, prefix, i, name, kind, visibility, leaf, "{;");
        put(out, symbol);
    }
}

/// The struct, union or enum that the type of node `i` defines.
pub open spec fn typed_aggregate(
    c: Ctx,
    prefix: Seq<DescriptorView>,
    i: int,
    visibility: Visibility,
) -> Seq<SymbolView> {
    match c.tree.child(i, "type"@) {
        Some(ty) => aggregate_symbols(c, prefix, ty, visibility),
        None => Seq::empty(),
    }
}

/// The function or variable that the declarator `d` of the declaration `i`
/// introduces.
pub open spec fn declarator_symbol(
    c: Ctx,
    prefix: Seq<DescriptorView>,
    i: int,
    d: int,
) -> Seq<SymbolView> {
    match declared(c.tree, d) {
        Some((name, true)) => seq![
            definition(
                c,
                prefix,
                i,
                name,
                SymbolKind::Function,
                linkage(c.tree, i),
                method_view(name),
            ),
        ],
        Some((name, false)) => seq![
            definition(
                c,
                prefix,
                i,
                name,
                SymbolKind::Static,
                linkage(c.tree, i),
                DescriptorView::Term(name),
            ),
        ],
        None => Seq::empty(),
    }
}

/// What the declarators among `lo..hi` of the declaration `i` introduce.
pub open spec fn declarator_symbols(
    c: Ctx,
    prefix: Seq<DescriptorView>,
    i: int,
    lo: int,
    hi: int,
) -> Seq<SymbolView>
    decreases hi - lo,
{
    if lo >= hi {
        Seq::empty()
    } else {
        (if c.tree.in_field(lo, "declarator"@) {
            declarator_symbol(c, prefix, i, lo)
        } else {
            Seq::empty()
        }) + declarator_symbols(c, prefix, i, c.tree.next(lo, hi), hi)
    }
}

/// The function that node `i` defines. One named `main` is where the program
/// starts.
pub open spec fn function_symbols(c: Ctx, prefix: Seq<DescriptorView>, i: int) -> Seq<SymbolView> {
    match c.tree.child(i, "declarator"@) {
        Some(d) => match declared(c.tree, d) {
            Some((name, _)) => seq![
                SymbolView {
                    entry_points: if name == "main"@ {
                        seq![EntryPointView::Main]
                    } else {
                        Seq::empty()
                    },
                    ..definition(
                        c,
                        prefix,
                        i,
                        name,
                        SymbolKind::Function,
                        linkage(c.tree, i),
                        method_view(name),
                    )
                },
            ],
            None => Seq::empty(),
        },
        None => Seq::empty(),
    }
}

/// The aliases that the declarators among `lo..hi` of the type definition `i`
/// introduce.
pub open spec fn aliases_in(
    c: Ctx,
    prefix: Seq<DescriptorView>,
    i: int,
    lo: int,
    hi: int,
) -> Seq<SymbolView>
    decreases hi - lo,
{
    if lo >= hi {
        Seq::empty()
    } else {
        (match declared(c.tree, lo) {
            Some((name, _)) => if c.tree.in_field(lo, "declarator"@) {
                seq![
                    definition(
                        c,
                        prefix,
                        i,
                        name,
                        SymbolKind::TypeAlias,
                        Visibility::Public,
                        DescriptorView::Type(name),
                    ),
                ]
            } else {
                Seq::empty()
            },
            None => Seq::empty(),
        }) + aliases_in(c, prefix, i, c.tree.next(lo, hi), hi)
    }
}

/// The macro that node `i` defines.
pub open spec fn macro_symbols(
    c: Ctx,
    prefix: Seq<DescriptorView>,
    i: int,
    kind: SymbolKind,
) -> Seq<
    SymbolView,
> {
    match c.tree.field_text(i, "name"@) {
        Some(name) => seq![
            definition(c, prefix, i, name, kind, Visibility::Public, DescriptorView::Macro(name)),
        ],
        None => Seq::empty(),
    }
}

/// What the node `i` at the top of a C file defines.
pub open spec fn symbols_at(c: Ctx, prefix: Seq<DescriptorView>, i: int) -> Seq<SymbolView>
    decreases c.tree.left(i), 0nat,
{
    let kind = c.tree.kind(i);
    if !c.tree.has(i) {
        Seq::empty()
    } else if is_section(c.tree, i) {
        symbols_in(c, prefix, i + 1, c.tree.after(i))
    } else if kind == "function_definition"@ {
        function_symbols(c, prefix, i)
    } else if kind == "declaration"@ {
        typed_aggregate(c, prefix, i, linkage(c.tree, i)) + declarator_symbols(
            c,
            prefix,
            i,
            i + 1,
            c.tree.after(i),
        )
    } else if kind == "type_definition"@ {
        typed_aggregate(c, prefix, i, Visibility::Public) + aliases_in(
            c,
            prefix,
            i,
            i + 1,
            c.tree.after(i),
        )
    } else if kind == "preproc_def"@ {
        macro_symbols(c, prefix, i, SymbolKind::Const)
    } else if kind == "preproc_function_def"@ {
        macro_symbols(c, prefix, i, SymbolKind::Function)
    } else {
        aggregate_symbols(c, prefix, i, Visibility::Public)
    }
}

/// What the nodes `lo..hi` at the top of a C file define.
pub open spec fn symbols_in(
    c: Ctx,
    prefix: Seq<DescriptorView>,
    lo: int,
    hi: int,
) -> Seq<SymbolView>
    decreases c.tree.left(lo), 1nat,
{
    if lo >= hi || !c.tree.has(lo) {
        Seq::empty()
    } else {
        symbols_at(c, prefix, lo) + symbols_in(c, prefix, c.tree.next(lo, hi), hi)
    }
}

/// Adds the aliases that the type definition `i` introduces.
fn push_aliases(ctx: &ExtractCtx<'_>, prefix: &Vec<Descriptor>, i: usize, out: &mut Vec<Symbol>)
    requires
        i < ctx.tree@.len(),
    ensures
        views(final(out)@) == views(old(out)@) + aliases_in(
            ctx@,
            views(prefix@),
            i as int,
            i + 1,
            ctx.tree@.after(i as int),
        ),
{
    let tree = ctx.tree;
    let hi: usize = tree.after(i);
    let mut lo: usize = i + 1;
    while lo < hi
        invariant
            i < lo,
            i < tree@.len(),
            tree == ctx.tree,
            hi == tree@.after(i as int),
            hi <= tree@.len(),
            views(out@) + aliases_in(ctx@, views(prefix@), i as int, lo as int, hi as int)
                == views(old(out)@) + aliases_in(
                ctx@,
                views(prefix@),
                i as int,
                i + 1,
                hi as int,
            ),
        decreases hi - lo,
    {
        if tree.in_field(lo, "declarator") {
            if let Some((name, _)) = declarator_name(tree, lo) {
                let leaf = Descriptor::Type(name.as_str().to_owned());
                let symbol = define(
                    ctx,
                    prefix,
                    i,
                    name,
                    SymbolKind::TypeAlias,
                    Visibility::Public,
                    leaf,
                    "{;",
                );
                put(out, symbol);
            }
        }
        lo = tree.next(lo, hi);
    }
}

/// Adds what the declarators of the declaration `i` introduce.
fn push_declarators(
    ctx: &ExtractCtx<'_>,
    prefix: &Vec<Descriptor>,
    i: usize,
    visibility: Visibility,
    out: &mut Vec<Symbol>,
)
    requires
        i < ctx.tree@.len(),
        visibility == linkage(ctx.tree@, i as int),
    ensures
        views(final(out)@) == views(old(out)@) + declarator_symbols(
            ctx@,
            views(prefix@),
            i as int,
            i + 1,
            ctx.tree@.after(i as int),
        ),
{
    let tree = ctx.tree;
    let hi: usize = tree.after(i);
    let mut lo: usize = i + 1;
    while lo < hi
        invariant
            i < lo,
            i < tree@.len(),
            tree == ctx.tree,
            hi == tree@.after(i as int),
            hi <= tree@.len(),
            visibility == linkage(tree@, i as int),
            views(out@) + declarator_symbols(ctx@, views(prefix@), i as int, lo as int, hi as int)
                == views(old(out)@) + declarator_symbols(
                ctx@,
                views(prefix@),
                i as int,
                i + 1,
                hi as int,
            ),
        decreases hi - lo,
    {
        if tree.in_field(lo, "declarator") {
            if let Some((name, is_function)) = declarator_name(tree, lo) {
                let symbol = if is_function {
                    let leaf = Descriptor::method(name.as_str().to_owned());
                    define(ctx, prefix, i, name, SymbolKind::Function, visibility, leaf, "{;")
                } else {
                    let leaf = Descriptor::Term(name.as_str().to_owned());
                    define(ctx, prefix, i, name, SymbolKind::Static, visibility, leaf, "{;")
                };
                put(out, symbol);
            }
        }
        lo = tree.next(lo, hi);
    }
}

/// Adds what the node `i` at the top of a C file defines.
fn push_symbols(ctx: &ExtractCtx<'_>, prefix: &Vec<Descriptor>, i: usize, out: &mut Vec<Symbol>)
    requires
        i < ctx.tree@.len(),
    ensures
        views(final(out)@) == views(old(out)@) + symbols_at(ctx@, views(prefix@), i as int),
    decreases ctx.tree@.left(i as int), 1nat,
{
    let tree = ctx.tree;
    if holds_declarations(tree, i) {
        push_all_symbols(ctx, prefix, i, out);
    } else if tree.is(i, "function_definition") {
        let visibility = linkage_of(tree, i);
        if let Some(d) = tree.child(i, "declarator") {
            if let Some((name, _)) = declarator_name(tree, d) {
                let is_main: bool = same(name.as_str(), "main");
                let leaf = Descriptor::method(name.as_str().to_owned());
                let mut symbol = define(
                    ctx,
                    prefix,
                    i,
                    name,
                    SymbolKind::Function,
                    visibility,
                    leaf,
                    "{;",
                );
                if is_main {
                    add_entry_point(&mut symbol, EntryPoint::Main);
                    assert(symbol@.entry_points =~= seq![EntryPointView::Main]);
                }
                put(out, symbol);
            }
        }
    } else if tree.is(i, "declaration") {
        let visibility = linkage_of(tree, i);
        if let Some(ty) = tree.child(i, "type") {
            push_aggregate(ctx, prefix, ty, visibility, out);
        }
        push_declarators(ctx, prefix, i, visibility, out);
    } else if tree.is(i, "type_definition") {
        if let Some(ty) = tree.child(i, "type") {
            push_aggregate(ctx, prefix, ty, Visibility::Public, out);
        }
        push_aliases(ctx, prefix, i, out);
    } else if tree.is(i, "preproc_def") {
        push_macro(ctx, prefix, i, SymbolKind::Const, out);
    } else if tree.is(i, "preproc_function_def") {
        push_macro(ctx, prefix, i, SymbolKind::Function, out);
    } else {
        push_aggregate(ctx, prefix, i, Visibility::Public, out);
    }
}

/// Adds what the children of node `i` define.
fn push_all_symbols(ctx: &ExtractCtx<'_>, prefix: &Vec<Descriptor>, i: usize, out: &mut Vec<Symbol>)
    requires
        i < ctx.tree@.len(),
    ensures
        views(final(out)@) == views(old(out)@) + symbols_in(
            ctx@,
            views(prefix@),
            i + 1,
            ctx.tree@.after(i as int),
        ),
    decreases ctx.tree@.left(i as int), 0nat,
{
    let tree = ctx.tree;
    let hi: usize = tree.after(i);
    let mut lo: usize = i + 1;
    while lo < hi
        invariant
            i < lo,
            i < tree@.len(),
            tree == ctx.tree,
            hi == tree@.after(i as int),
            hi <= tree@.len(),
            views(out@) + symbols_in(ctx@, views(prefix@), lo as int, hi as int) == views(old(out)@)
                + symbols_in(ctx@, views(prefix@), i + 1, hi as int),
        decreases hi - lo,
    {
        push_symbols(ctx, prefix, lo, out);
        lo = tree.next(lo, hi);
    }
}

/// The linkage of node `i`.
fn linkage_of(tree: &SyntaxTree, i: usize) -> (visibility: Visibility)
    requires
        i < tree@.len(),
    ensures
        visibility == linkage(tree@, i as int),
{
    if is_static(tree, i) {
        Visibility::Private
    } else {
        Visibility::Public
    }
}

/// Adds the macro that node `i` defines.
fn push_macro(
    ctx: &ExtractCtx<'_>,
    prefix: &Vec<Descriptor>,
    i: usize,
    kind: SymbolKind,
    out: &mut Vec<Symbol>,
)
    requires
        i < ctx.tree@.len(),
    ensures
        views(final(out)@) == views(old(out)@)
            + macro_symbols(ctx@, views(prefix@), i as int, kind),
{
    if let Some(name) = ctx.tree.field_text(i, "name") {
        let leaf = Descriptor::Macro(name.as_str().to_owned());
        let symbol = define(ctx, prefix, i, name, kind, Visibility::Public, leaf, "{;");
        put(out, symbol);
    }
}

/// What a C file defines.
fn collect_symbols(ctx: &ExtractCtx<'_>, prefix: &Vec<Descriptor>) -> (out: Vec<Symbol>)
    ensures
        views(out@) == symbols_in(ctx@, views(prefix@), 1, ctx.tree@.after(0)),
{
    let mut out: Vec<Symbol> = Vec::new();
    proof {
        views_empty::<Symbol>();
    }
    if ctx.tree.len() > 0 {
        push_all_symbols(ctx, prefix, 0, &mut out);
    }
    out
}

// ── Bindings ─────────────────────────────────────────────────────────────────

/// The name that the parameter `i` introduces.
pub open spec fn param_at(t: Syntax, scopes: Seq<Scope>, i: int) -> Seq<BindingView> {
    if t.kind(i) == "parameter_declaration"@ {
        match t.child(i, "declarator"@) {
            Some(d) => match declared(t, d) {
                Some((name, _)) => seq![
                    local_binding(scopes, name, t.start(d), BindingKind::Param, None),
                ],
                None => Seq::empty(),
            },
            None => Seq::empty(),
        }
    } else {
        Seq::empty()
    }
}

/// The names that the parameters `lo..hi` introduce.
pub open spec fn params_in(t: Syntax, scopes: Seq<Scope>, lo: int, hi: int) -> Seq<BindingView>
    decreases hi - lo,
{
    if lo >= hi {
        Seq::empty()
    } else {
        param_at(t, scopes, lo) + params_in(t, scopes, t.next(lo, hi), hi)
    }
}

/// The names that the parameters of the function `i` introduce.
pub open spec fn function_params(t: Syntax, scopes: Seq<Scope>, i: int) -> Seq<BindingView> {
    match t.child(i, "declarator"@) {
        Some(d) => match function_declarator(t, d) {
            Some(f) => match t.child(f, "parameters"@) {
                Some(params) => params_in(t, scopes, params + 1, t.after(params)),
                None => Seq::empty(),
            },
            None => Seq::empty(),
        },
        None => Seq::empty(),
    }
}

/// The name that the declarator `i` of a declaration introduces, unless it is
/// one of the file as a whole.
pub open spec fn local_at(t: Syntax, scopes: Seq<Scope>, i: int) -> Seq<BindingView> {
    match declared(t, i) {
        Some((name, _)) => if at_file_level(scopes, t.start(i)) {
            Seq::empty()
        } else {
            seq![local_binding(scopes, name, t.start(i), BindingKind::Local, None)]
        },
        None => Seq::empty(),
    }
}

/// The names that the declarators among `lo..hi` of a declaration introduce.
pub open spec fn locals_in(t: Syntax, scopes: Seq<Scope>, lo: int, hi: int) -> Seq<BindingView>
    decreases hi - lo,
{
    if lo >= hi {
        Seq::empty()
    } else {
        (if t.in_field(lo, "declarator"@) {
            local_at(t, scopes, lo)
        } else {
            Seq::empty()
        }) + locals_in(t, scopes, t.next(lo, hi), hi)
    }
}

/// Adds the names that the declaration `i` introduces.
fn push_locals(tree: &SyntaxTree, i: usize, scopes: &Vec<Scope>, out: &mut Vec<Binding>)
    requires
        i < tree@.len(),
    ensures
        views(final(out)@)
            == views(old(out)@) + locals_in(tree@, scopes@, i + 1, tree@.after(i as int)),
{
    let hi: usize = tree.after(i);
    let mut lo: usize = i + 1;
    while lo < hi
        invariant
            i < lo,
            i < tree@.len(),
            hi == tree@.after(i as int),
            hi <= tree@.len(),
            views(out@) + locals_in(tree@, scopes@, lo as int, hi as int) == views(old(out)@)
                + locals_in(tree@, scopes@, i + 1, hi as int),
        decreases hi - lo,
    {
        if tree.in_field(lo, "declarator") {
            if let Some((name, _)) = declarator_name(tree, lo) {
                let intro: usize = tree.start(lo);
                if !is_file_level(intro, scopes) {
                    push_binding(out, name, intro, BindingKind::Local, scopes);
                }
            }
        }
        lo = tree.next(lo, hi);
    }
}

/// The names that node `i` itself introduces: the parameters of a function, or what
/// a declaration declares.
pub open spec fn introduced(t: Syntax, scopes: Seq<Scope>, i: int) -> Seq<BindingView> {
    if t.kind(i) == "function_definition"@ {
        function_params(t, scopes, i)
    } else if t.kind(i) == "declaration"@ {
        locals_in(t, scopes, i + 1, t.after(i))
    } else {
        Seq::empty()
    }
}

/// Adds the names that node `i` itself introduces.
fn push_introduced(tree: &SyntaxTree, i: usize, scopes: &Vec<Scope>, out: &mut Vec<Binding>)
    requires
        i < tree@.len(),
    ensures
        views(final(out)@) == views(old(out)@) + introduced(tree@, scopes@, i as int),
{
    if tree.is(i, "function_definition") {
        if let Some(d) = tree.child(i, "declarator") {
            if let Some(f) = find_function_declarator(tree, d) {
                if let Some(params) = tree.child(f, "parameters") {
                    collect_params(tree, params, scopes, out);
                }
            }
        }
    } else if tree.is(i, "declaration") {
        push_locals(tree, i, scopes, out);
    }
}

/// The names that are introduced in the subtree of node `i`.
pub open spec fn bindings_at(t: Syntax, scopes: Seq<Scope>, i: int) -> Seq<BindingView>
    decreases t.left(i), 0nat,
{
    if !t.has(i) {
        Seq::empty()
    } else {
        introduced(t, scopes, i) + bindings_in(t, scopes, i + 1, t.after(i))
    }
}

/// The names that are introduced in the subtrees of the nodes `lo..hi`.
pub open spec fn bindings_in(t: Syntax, scopes: Seq<Scope>, lo: int, hi: int) -> Seq<BindingView>
    decreases t.left(lo), 1nat,
{
    if lo >= hi || !t.has(lo) {
        Seq::empty()
    } else {
        bindings_at(t, scopes, lo) + bindings_in(t, scopes, t.next(lo, hi), hi)
    }
}

/// Adds the names that are introduced in the subtree of node `i`.
fn collect_bindings_dfs(tree: &SyntaxTree, i: usize, scopes: &Vec<Scope>, out: &mut Vec<Binding>)
    requires
        i < tree@.len(),
    ensures
        views(final(out)@) == views(old(out)@) + bindings_at(tree@, scopes@, i as int),
    decreases tree@.left(i as int),
{
    push_introduced(tree, i, scopes, out);
    let hi: usize = tree.after(i);
    let mut lo: usize = i + 1;
    while lo < hi
        invariant
            i < lo,
            i < tree@.len(),
            hi == tree@.after(i as int),
            hi <= tree@.len(),
            views(out@) + bindings_in(tree@, scopes@, lo as int, hi as int) == views(old(out)@)
                + bindings_at(tree@, scopes@, i as int),
        decreases hi - lo,
    {
        collect_bindings_dfs(tree, lo, scopes, out);
        lo = tree.next(lo, hi);
    }
}

/// The names that are introduced of node `i` itself, for each `i`.
pub open spec fn bindings_of_nodes(
    t: Syntax,
    scopes: Seq<Scope>,
) -> spec_fn(int) -> Seq<BindingView> {
    |j: int| introduced(t, scopes, j)
}

/// The names that are introduced in a subtree are those of its nodes, in
/// document order: none is missed and none is reported twice.
pub proof fn bindings_in_document_order(t: Syntax, scopes: Seq<Scope>, i: int)
    requires
        t.nested(),
        t.has(i),
    ensures
        bindings_at(t, scopes, i) == in_order(bindings_of_nodes(t, scopes), i, t.after(i)),
    decreases t.left(i), 0nat,
{
    let items = bindings_of_nodes(t, scopes);
    bindings_of_siblings(t, scopes, i + 1, t.after(i));
    assert(in_order(items, i, t.after(i)) == items(i) + in_order(items, i + 1, t.after(i)));
    assert(Seq::<BindingView>::empty() + items(i) =~= items(i) + Seq::<BindingView>::empty());
}

proof fn bindings_of_siblings(t: Syntax, scopes: Seq<Scope>, lo: int, hi: int)
    requires
        t.nested(),
        t.closed_range(lo, hi),
    ensures
        bindings_in(t, scopes, lo, hi) == in_order(bindings_of_nodes(t, scopes), lo, hi),
    decreases t.left(lo), 1nat,
{
    if lo < hi {
        let items = bindings_of_nodes(t, scopes);
        bindings_in_document_order(t, scopes, lo);
        bindings_of_siblings(t, scopes, t.after(lo), hi);
        in_order_split(items, lo, t.after(lo), hi);
    }
}

/// The names that are introduced in a C file below the file as a whole.
fn collect_bindings(tree: &SyntaxTree, scopes: &Vec<Scope>) -> (out: Vec<Binding>)
    ensures
        views(out@) == bindings_at(tree@, scopes@, 0),
{
    let mut out: Vec<Binding> = Vec::new();
    proof {
        views_empty::<Binding>();
    }
    if tree.len() > 0 {
        collect_bindings_dfs(tree, 0, scopes, &mut out);
    }
    out
}

/// Adds the names that the parameters in the list `i` introduce.
fn collect_params(tree: &SyntaxTree, i: usize, scopes: &Vec<Scope>, out: &mut Vec<Binding>)
    requires
        i < tree@.len(),
    ensures
        views(final(out)@) == views(old(out)@) + params_in(
            tree@,
            scopes@,
            i + 1,
            tree@.after(i as int),
        ),
{
    let hi: usize = tree.after(i);
    let mut lo: usize = i + 1;
    while lo < hi
        invariant
            i < lo,
            hi == tree@.after(i as int),
            hi <= tree@.len(),
            views(out@) + params_in(tree@, scopes@, lo as int, hi as int) == views(old(out)@)
                + params_in(tree@, scopes@, i + 1, hi as int),
        decreases hi - lo,
    {
        if tree.is(lo, "parameter_declaration") {
            if let Some(d) = tree.child(lo, "declarator") {
                if let Some((name, _)) = declarator_name(tree, d) {
                    push_binding(out, name, tree.start(d), BindingKind::Param, scopes);
                }
            }
        }
        lo = tree.next(lo, hi);
    }
}

// ── Type references ──────────────────────────────────────────────────────────

/// The node that names the type `i`, unless it is built in or has no name.
pub open spec fn type_leaf_of(t: Syntax, i: int) -> Option<int> {
    if t.kind(i) == "type_identifier"@ {
        Some(i)
    } else if t.kind(i) == "struct_specifier"@ || t.kind(i) == "union_specifier"@ || t.kind(i)
        == "enum_specifier"@ {
        t.child(i, "name"@)
    } else {
        None
    }
}

/// The node that names the type `i`.
fn type_leaf(tree: &SyntaxTree, i: usize) -> (leaf: Option<usize>)
    requires
        i < tree@.len(),
    ensures
        opt_index(leaf) == type_leaf_of(tree@, i as int),
{
    if tree.is(i, "type_identifier") {
        Some(i)
    } else if tree.is(i, "struct_specifier") || tree.is(i, "union_specifier") || tree.is(
        i,
        "enum_specifier",
    ) {
        tree.child(i, "name")
    } else {
        None
    }
}

/// The reference to the type of node `i`.
pub open spec fn typed_ref(t: Syntax, file: Seq<char>, i: int, ctx: TypeRefContext) -> Seq<
    ReferenceView,
> {
    match t.child(i, "type"@) {
        Some(ty) => match type_leaf_of(t, ty) {
            Some(leaf) => seq![type_reference_at(t, file, leaf, t.text(leaf), ctx)],
            None => Seq::empty(),
        },
        None => Seq::empty(),
    }
}

/// Adds the reference to the type of node `i`.
fn push_typed_ref(
    tree: &SyntaxTree,
    file: &str,
    i: usize,
    ctx: TypeRefContext,
    out: &mut Vec<Reference>,
)
    requires
        i < tree@.len(),
    ensures
        views(final(out)@) == views(old(out)@) + typed_ref(tree@, file@, i as int, ctx),
{
    if let Some(ty) = tree.child(i, "type") {
        if let Some(leaf) = type_leaf(tree, ty) {
            push_type_ref(out, tree, file, leaf, tree.text(leaf), ctx);
        }
    }
}

/// The reference to a type of node `i` itself: what a function returns, or the type
/// of a parameter or a field.
pub open spec fn own_type_refs(t: Syntax, file: Seq<char>, i: int) -> Seq<ReferenceView> {
    if t.kind(i) == "function_definition"@ {
        typed_ref(t, file, i, TypeRefContext::ReturnType)
    } else if t.kind(i) == "parameter_declaration"@ {
        typed_ref(t, file, i, TypeRefContext::ParameterType)
    } else if t.kind(i) == "field_declaration"@ {
        typed_ref(t, file, i, TypeRefContext::Field)
    } else {
        Seq::empty()
    }
}

/// The references to types in the subtree of node `i`.
pub open spec fn type_refs_at(t: Syntax, file: Seq<char>, i: int) -> Seq<ReferenceView>
    decreases t.left(i), 0nat,
{
    if !t.has(i) {
        Seq::empty()
    } else {
        own_type_refs(t, file, i) + type_refs_in(t, file, i + 1, t.after(i))
    }
}

/// The references to types in the subtrees of the nodes `lo..hi`.
pub open spec fn type_refs_in(t: Syntax, file: Seq<char>, lo: int, hi: int) -> Seq<ReferenceView>
    decreases t.left(lo), 1nat,
{
    if lo >= hi || !t.has(lo) {
        Seq::empty()
    } else {
        type_refs_at(t, file, lo) + type_refs_in(t, file, t.next(lo, hi), hi)
    }
}

/// Adds the references to types in the subtree of node `i`.
fn collect_type_references(tree: &SyntaxTree, i: usize, file: &str, out: &mut Vec<Reference>)
    requires
        i < tree@.len(),
    ensures
        views(final(out)@) == views(old(out)@) + type_refs_at(tree@, file@, i as int),
    decreases tree@.left(i as int),
{
    if tree.is(i, "function_definition") {
        push_typed_ref(tree, file, i, TypeRefContext::ReturnType, out);
    } else if tree.is(i, "parameter_declaration") {
        push_typed_ref(tree, file, i, TypeRefContext::ParameterType, out);
    } else if tree.is(i, "field_declaration") {
        push_typed_ref(tree, file, i, TypeRefContext::Field, out);
    }
    let hi: usize = tree.after(i);
    let mut lo: usize = i + 1;
    while lo < hi
        invariant
            i < lo,
            i < tree@.len(),
            hi == tree@.after(i as int),
            hi <= tree@.len(),
            views(out@) + type_refs_in(tree@, file@, lo as int, hi as int) == views(old(out)@)
                + type_refs_at(tree@, file@, i as int),
        decreases hi - lo,
    {
        collect_type_references(tree, lo, file, out);
        lo = tree.next(lo, hi);
    }
}

/// The references to types of node `i` itself, for each `i`.
pub open spec fn type_refs_of_nodes(
    t: Syntax,
    file: Seq<char>,
) -> spec_fn(int) -> Seq<ReferenceView> {
    |j: int| own_type_refs(t, file, j)
}

/// The references to types in a subtree are those of its nodes, in document
/// order: none is missed and none is reported twice.
pub proof fn type_refs_in_document_order(t: Syntax, file: Seq<char>, i: int)
    requires
        t.nested(),
        t.has(i),
    ensures
        type_refs_at(t, file, i) == in_order(type_refs_of_nodes(t, file), i, t.after(i)),
    decreases t.left(i), 0nat,
{
    let items = type_refs_of_nodes(t, file);
    type_refs_of_siblings(t, file, i + 1, t.after(i));
    assert(in_order(items, i, t.after(i)) == items(i) + in_order(items, i + 1, t.after(i)));
    assert(Seq::<ReferenceView>::empty() + items(i) =~= items(i) + Seq::<ReferenceView>::empty());
}

proof fn type_refs_of_siblings(t: Syntax, file: Seq<char>, lo: int, hi: int)
    requires
        t.nested(),
        t.closed_range(lo, hi),
    ensures
        type_refs_in(t, file, lo, hi) == in_order(type_refs_of_nodes(t, file), lo, hi),
    decreases t.left(lo), 1nat,
{
    if lo < hi {
        let items = type_refs_of_nodes(t, file);
        type_refs_in_document_order(t, file, lo);
        type_refs_of_siblings(t, file, t.after(lo), hi);
        in_order_split(items, lo, t.after(lo), hi);
    }
}

// ── Reads and writes ─────────────────────────────────────────────────────────

/// Whether the identifier `i` stands where it is not read: where it is called,
/// introduced or assigned to.
pub open spec fn not_read(t: Syntax, i: int) -> bool {
    match t.parent(i) {
        None => true,
        Some(p) => {
            let kind = t.kind(p);
            if kind == "call_expression"@ {
                t.child(p, "function"@) == Some(i)
            } else if kind == "pointer_declarator"@ || kind == "function_declarator"@ || kind
                == "init_declarator"@ || kind == "array_declarator"@ || kind == "declaration"@
                || kind == "type_definition"@ || kind == "function_definition"@ || kind
                == "parameter_declaration"@ {
                t.in_field(i, "declarator"@)
            } else if kind == "attributed_declarator"@ || kind == "parenthesized_declarator"@ {
                true
            } else if kind == "assignment_expression"@ {
                t.child(p, "left"@) == Some(i)
            } else {
                false
            }
        },
    }
}

/// Whether the identifier `i` stands where it is not read.
fn is_non_read_position(tree: &SyntaxTree, i: usize) -> (b: bool)
    ensures
        b == not_read(tree@, i as int),
{
    match tree.parent(i) {
        None => true,
        Some(p) => {
            if tree.is(p, "call_expression") {
                tree.is_child(p, "function", i)
            } else if tree.is(p, "pointer_declarator") || tree.is(p, "function_declarator")
                || tree.is(p, "init_declarator") || tree.is(p, "array_declarator") || tree.is(
                p,
                "declaration",
            ) || tree.is(p, "type_definition") || tree.is(p, "function_definition") || tree.is(
                p,
                "parameter_declaration",
            ) {
                tree.in_field(i, "declarator")
            } else if tree.is(p, "attributed_declarator") || tree.is(
                p,
                "parenthesized_declarator",
            ) {
                true
            } else if tree.is(p, "assignment_expression") {
                tree.is_child(p, "left", i)
            } else {
                false
            }
        },
    }
}

/// The read that the identifier `i` is, where it is long enough and stands where
/// it is read.
pub open spec fn read_of(t: Syntax, file: Seq<char>, i: int) -> Seq<ReferenceView> {
    if (t.kind(i) == "identifier"@) && reportable(t.text(i)) && !not_read(t, i) {
        seq![reference_at(t, file, i, t.text(i), RefRole::Read)]
    } else {
        Seq::empty()
    }
}

/// The reads in the subtree of node `i`.
pub open spec fn reads_at(t: Syntax, file: Seq<char>, i: int) -> Seq<ReferenceView>
    decreases t.left(i), 0nat,
{
    if !t.has(i) {
        Seq::empty()
    } else if t.kind(i) == "identifier"@ {
        read_of(t, file, i)
    } else {
        read_of(t, file, i) + reads_in(t, file, i + 1, t.after(i))
    }
}

/// The reads in the subtrees of the nodes `lo..hi`.
pub open spec fn reads_in(t: Syntax, file: Seq<char>, lo: int, hi: int) -> Seq<ReferenceView>
    decreases t.left(lo), 1nat,
{
    if lo >= hi || !t.has(lo) {
        Seq::empty()
    } else {
        reads_at(t, file, lo) + reads_in(t, file, t.next(lo, hi), hi)
    }
}

/// Adds the reads in the subtree of node `i`.
fn collect_read_references(tree: &SyntaxTree, i: usize, file: &str, out: &mut Vec<Reference>)
    requires
        i < tree@.len(),
    ensures
        views(final(out)@) == views(old(out)@) + reads_at(tree@, file@, i as int),
    decreases tree@.left(i as int),
{
    if tree.is(i, "identifier") {
        let name = tree.text(i);
        if is_reportable(name) && !is_non_read_position(tree, i) {
            push_ref(out, tree, file, i, name, RefRole::Read);
        }
    }
    if tree.is(i, "identifier") {
        return ;
    }
    let hi: usize = tree.after(i);
    let mut lo: usize = i + 1;
    while lo < hi
        invariant
            i < lo,
            i < tree@.len(),
            hi == tree@.after(i as int),
            hi <= tree@.len(),
            views(out@) + reads_in(tree@, file@, lo as int, hi as int) == views(old(out)@)
                + reads_at(tree@, file@, i as int),
        decreases hi - lo,
    {
        collect_read_references(tree, lo, file, out);
        lo = tree.next(lo, hi);
    }
}

/// The reads of node `i` itself, for each `i`.
pub open spec fn reads_of_nodes(t: Syntax, file: Seq<char>) -> spec_fn(int) -> Seq<ReferenceView> {
    |j: int| read_of(t, file, j)
}

/// The reads in a subtree are those of its nodes, in document order: none is missed
/// and none is reported twice.
pub proof fn reads_in_document_order(t: Syntax, file: Seq<char>, i: int)
    requires
        t.nested(),
        t.has(i),
        forall|j: int, k: int|
            t.has(j) && t.kind(j) == "identifier"@ && j < k < #[trigger] t.after(j)
                ==> #[trigger] t.kind(k) != "identifier"@,
    ensures
        reads_at(t, file, i) == in_order(reads_of_nodes(t, file), i, t.after(i)),
    decreases t.left(i), 0nat,
{
    let items = reads_of_nodes(t, file);
    if t.kind(i) == "identifier"@ {
        in_order_none(items, i + 1, t.after(i));
    } else {
        reads_of_siblings(t, file, i + 1, t.after(i));
    }
    assert(in_order(items, i, t.after(i)) == items(i) + in_order(items, i + 1, t.after(i)));
    assert(Seq::<ReferenceView>::empty() + items(i) =~= items(i) + Seq::<ReferenceView>::empty());
}

proof fn reads_of_siblings(t: Syntax, file: Seq<char>, lo: int, hi: int)
    requires
        t.nested(),
        t.closed_range(lo, hi),
        forall|j: int, k: int|
            t.has(j) && t.kind(j) == "identifier"@ && j < k < #[trigger] t.after(j)
                ==> #[trigger] t.kind(k) != "identifier"@,
    ensures
        reads_in(t, file, lo, hi) == in_order(reads_of_nodes(t, file), lo, hi),
    decreases t.left(lo), 1nat,
{
    if lo < hi {
        let items = reads_of_nodes(t, file);
        reads_in_document_order(t, file, lo);
        reads_of_siblings(t, file, t.after(lo), hi);
        in_order_split(items, lo, t.after(lo), hi);
    }
}

/// The write of the assignment `i` to an identifier that is long enough.
pub open spec fn write_of(t: Syntax, file: Seq<char>, i: int) -> Seq<ReferenceView> {
    match t.child(i, "left"@) {
        Some(lhs) => if t.kind(i) == "assignment_expression"@ && t.kind(lhs) == "identifier"@
            && reportable(t.text(lhs)) {
            seq![reference_at(t, file, lhs, t.text(lhs), RefRole::Write)]
        } else {
            Seq::empty()
        },
        None => Seq::empty(),
    }
}

/// The writes in the subtree of node `i`.
pub open spec fn writes_at(t: Syntax, file: Seq<char>, i: int) -> Seq<ReferenceView>
    decreases t.left(i), 0nat,
{
    if !t.has(i) {
        Seq::empty()
    } else {
        write_of(t, file, i) + writes_in(t, file, i + 1, t.after(i))
    }
}

/// The writes in the subtrees of the nodes `lo..hi`.
pub open spec fn writes_in(t: Syntax, file: Seq<char>, lo: int, hi: int) -> Seq<ReferenceView>
    decreases t.left(lo), 1nat,
{
    if lo >= hi || !t.has(lo) {
        Seq::empty()
    } else {
        writes_at(t, file, lo) + writes_in(t, file, t.next(lo, hi), hi)
    }
}

/// Adds the writes in the subtree of node `i`.
fn collect_write_references(tree: &SyntaxTree, i: usize, file: &str, out: &mut Vec<Reference>)
    requires
        i < tree@.len(),
    ensures
        views(final(out)@) == views(old(out)@) + writes_at(tree@, file@, i as int),
    decreases tree@.left(i as int),
{
    if tree.is(i, "assignment_expression") {
        if let Some(lhs) = tree.child(i, "left") {
            let name = tree.text(lhs);
            if tree.is(lhs, "identifier") && is_reportable(name) {
                push_ref(out, tree, file, lhs, name, RefRole::Write);
            }
        }
    }
    let hi: usize = tree.after(i);
    let mut lo: usize = i + 1;
    while lo < hi
        invariant
            i < lo,
            i < tree@.len(),
            hi == tree@.after(i as int),
            hi <= tree@.len(),
            views(out@) + writes_in(tree@, file@, lo as int, hi as int) == views(old(out)@)
                + writes_at(tree@, file@, i as int),
        decreases hi - lo,
    {
        collect_write_references(tree, lo, file, out);
        lo = tree.next(lo, hi);
    }
}

/// The writes of node `i` itself, for each `i`.
pub open spec fn writes_of_nodes(t: Syntax, file: Seq<char>) -> spec_fn(int) -> Seq<ReferenceView> {
    |j: int| write_of(t, file, j)
}

/// The writes in a subtree are those of its nodes, in document order: none is missed
/// and none is reported twice.
pub proof fn writes_in_document_order(t: Syntax, file: Seq<char>, i: int)
    requires
        t.nested(),
        t.has(i),
    ensures
        writes_at(t, file, i) == in_order(writes_of_nodes(t, file), i, t.after(i)),
    decreases t.left(i), 0nat,
{
    let items = writes_of_nodes(t, file);
    writes_of_siblings(t, file, i + 1, t.after(i));
    assert(in_order(items, i, t.after(i)) == items(i) + in_order(items, i + 1, t.after(i)));
    assert(Seq::<ReferenceView>::empty() + items(i) =~= items(i) + Seq::<ReferenceView>::empty());
}

proof fn writes_of_siblings(t: Syntax, file: Seq<char>, lo: int, hi: int)
    requires
        t.nested(),
        t.closed_range(lo, hi),
    ensures
        writes_in(t, file, lo, hi) == in_order(writes_of_nodes(t, file), lo, hi),
    decreases t.left(lo), 1nat,
{
    if lo < hi {
        let items = writes_of_nodes(t, file);
        writes_in_document_order(t, file, lo);
        writes_of_siblings(t, file, t.after(lo), hi);
        in_order_split(items, lo, t.after(lo), hi);
    }
}

// ── Facts ────────────────────────────────────────────────────────────────────

/// The calls: identifiers that are called.
pub const CALL_QUERY: &'static str = "
(call_expression
  function: (identifier) @callee
)
";

/// The references of a C file, without their scopes.
pub open spec fn references_of(t: Syntax, file: Seq<char>, found: Seq<Seq<CaptureView>>) -> Seq<
    ReferenceView,
> {
    calls(t.source, file, found) + type_refs_at(t, file, 0) + reads_at(t, file, 0) + writes_at(
        t,
        file,
        0,
    )
}

/// The facts of a C file with the nodes `t`, where `found` are the matches of
/// the query on calls.
pub open spec fn facts_of(
    t: Syntax,
    file: Seq<char>,
    found: Seq<Seq<CaptureView>>,
) -> FileFactsView {
    let source_len = byte_count(t.source) as int;
    let ns = namespaces_of(file);
    let defs = symbols_in(
        Ctx { tree: t, file, lang: Language::C },
        namespace_steps(ns),
        1,
        t.after(0),
    );
    let scopes = scopes_of(t, source_len);
    FileFactsView {
        file,
        lang: Language::C.tag(),
        symbols: defs + seq![module_view(Language::C, ns, file, source_len)],
        references: all_scoped(scopes, references_of(t, file, found)),
        scopes,
        bindings: bindings_at(t, scopes, 0) + definitions_bound(defs),
        ffi_exports: exports_of(defs, defs.len() as int),
    }
}

/// The facts of a C file, from its nodes and the matches of the query on calls.
pub fn file_facts(tree: &SyntaxTree, file: &str, found: &Vec<Match>) -> (facts: FileFacts)
    ensures
        facts@ == facts_of(tree@, file@, views(found@)),
        coherent(facts@, byte_count(tree@.source) as int),
{
    let source_len: usize = byte_length(tree.source());
    let namespaces = c_namespaces(file);
    let ctx = ExtractCtx { tree, file, lang: Language::C };
    let defs = collect_symbols(&ctx, &namespace_descriptors(&namespaces));
    let def_bindings = definition_bindings(&defs);
    let ffi_exports = jni_exports(defs.as_slice());
    let ghost own = views(defs@);
    let mut symbols = defs;
    put(&mut symbols, module_symbol(Language::C, namespaces.as_slice(), file, source_len));
    let mut references = collect_call_references(tree.source(), file, found);
    if tree.len() > 0 {
        collect_type_references(tree, 0, file, &mut references);
        collect_read_references(tree, 0, file, &mut references);
        collect_write_references(tree, 0, file, &mut references);
    }
    assert(views(references@) =~= references_of(tree@, file@, views(found@)));
    let scopes = collect_scopes(tree, source_len);
    let ghost plain = views(references@);
    attach_reference_scopes(&mut references, &scopes);
    let mut bindings = collect_bindings(tree, &scopes);
    let ghost locals = views(bindings@);
    put_all(&mut bindings, def_bindings);
    let facts = FileFacts {
        file: file.to_owned(),
        lang: Language::C.as_str().to_owned(),
        symbols,
        references,
        scopes,
        bindings,
        ffi_exports,
    };
    proof {
        facts_are_coherent(facts@, own, plain, locals, Seq::empty(), source_len as int);
    }
    facts
}

/// Reads C files.
pub struct CExtractor;

impl Extractor for CExtractor {
    open spec fn language(&self) -> Language {
        Language::C
    }

    open spec fn facts(&self, tree: tree_sitter::Tree, file: Seq<char>) -> Result<
        FileFactsView,
        ErrorView,
    > {
        match answer_to(tree, CALL_QUERY@) {
            None => Err(ErrorView::Query { path: file }),
            Some(found) => Ok(facts_of(syntax_of(tree), file, found)),
        }
    }

    fn lang(&self) -> (lang: Language) {
        Language::C
    }

    fn extract_facts(&self, source: &str, file: &str) -> (result: Result<
        FileFacts,
        CodegraphError,
    >) {
        match parse(Language::C, source) {
            None => Err(CodegraphError::Parse { path: file.to_owned() }),
            Some(parsed) => match parsed.query(CALL_QUERY) {
                None => Err(CodegraphError::Query { path: file.to_owned() }),
                Some(found) => Ok(file_facts(parsed.syntax(), file, &found)),
            },
        }
    }
}

} // verus!
