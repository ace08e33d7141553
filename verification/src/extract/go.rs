//! The facts of Go files.

use crate::error::{CodegraphError, ErrorView};
use crate::graph::types::{
    Binding, BindingKind, BindingView, ByteSpan, EntryPoint, EntryPointView, FfiExport, FileFacts,
    FileFactsView, RefRole, Reference, ReferenceView, Scope, ScopeId, ScopeKind, Symbol, SymbolKind,
    SymbolView, TypeRefContext, Visibility,
};
use crate::items::{in_order, in_order_none, in_order_split, put, put_all, views, views_empty};
use crate::lang::Language;
use crate::parse::{answer_to, parse, syntax_of, CaptureView, Match};
use crate::symbol::{copy_descriptors, method_view, namespace_steps, Descriptor, DescriptorView};
use crate::syntax::{group_child_bounds, opt_index, Syntax, SyntaxTree};
use crate::text::{
    before_last, before_last_text, byte_count, byte_length, find_last, is_capitalized, is_empty,
    last_index, opt_text, pieces, same, segments, simple_name, simple_type_name, split_segments,
    starts_upper, strip_prefix, strip_suffix, trim_of, trimmed_of, without_prefix, without_suffix,
};
use vstd::prelude::*;

use super::{
    all_scoped, are_file_scopes, at_file_level, attach_reference_scopes, calls, coherent,
    collect_call_references, define, defined_at, definition_bindings, definitions_bound, extends,
    facts_are_coherent, facts_bind_imports, import_bindings, imports_are_bound, imports_bound,
    is_file_level, is_reportable, is_scope_tree, local_binding, module_scope, module_symbol,
    module_view, namespace_descriptors, nests_under, node_span, non_empty, push_ref, push_scope,
    push_type_ref, push_typed_binding, reference_at, reportable, scopes_nest, span_at, spans_nest,
    type_reference_at, Ctx, ExtractCtx, Extractor,
};

verus! {

broadcast use group_child_bounds;

// ── Namespaces ───────────────────────────────────────────────────────────────

/// The name in the package clause of a file, where it has one.
pub open spec fn package_of(t: Syntax) -> Option<Seq<char>> {
    match t.child_of_kind(0, "package_clause"@) {
        Some(clause) => match t.child_of_kind(clause, "package_identifier"@) {
            Some(name) => non_empty(t.text(name)),
            None => None,
        },
        None => None,
    }
}

/// The name in the package clause of a file, where it has one.
pub fn go_package_name(tree: &SyntaxTree) -> (name: Option<String>)
    ensures
        opt_text(name) == package_of(tree@),
{
    if tree.len() == 0 {
        return None;
    }
    match tree.child_of_kind(0, "package_clause") {
        Some(clause) => match tree.child_of_kind(clause, "package_identifier") {
            Some(name) => if is_empty(tree.text(name)) {
                None
            } else {
                Some(tree.text(name).to_owned())
            },
            None => None,
        },
        None => None,
    }
}

/// The pieces of the directory of a path.
pub open spec fn directory(path: Seq<char>) -> Seq<Seq<char>> {
    if last_index(path, '/', path.len() as int) < 0 {
        Seq::empty()
    } else {
        segments(before_last(path, '/'), '/')
    }
}

/// The namespaces of a Go file: its directory, below `src/`. A file without a
/// directory has the name in its package clause, or the stem of its own name.
pub open spec fn namespaces_of(t: Syntax, file: Seq<char>) -> Seq<Seq<char>> {
    let path = without_prefix(file, "src/"@);
    let stem = without_suffix(path, ".go"@);
    if directory(path).len() > 0 {
        directory(path)
    } else {
        match package_of(t) {
            Some(name) => seq![name],
            None => if stem.len() == 0 {
                Seq::empty()
            } else {
                seq![stem]
            },
        }
    }
}

/// The namespaces of a Go file.
pub fn go_namespaces(tree: &SyntaxTree, file: &str) -> (namespaces: Vec<String>)
    ensures
        views(namespaces@) == namespaces_of(tree@, file@),
{
    let path = strip_prefix(file, "src/");
    if find_last(path, '/').is_some() {
        let pieces = split_segments(before_last_text(path, '/'), '/');
        if pieces.len() > 0 {
            return pieces;
        }
    }
    let mut namespaces: Vec<String> = Vec::new();
    proof {
        views_empty::<String>();
    }
    if let Some(name) = go_package_name(tree) {
        put(&mut namespaces, name);
    } else {
        let stem = strip_suffix(path, ".go");
        if !is_empty(stem) {
            put(&mut namespaces, stem.to_owned());
        }
    }
    namespaces
}

// ── Definitions ──────────────────────────────────────────────────────────────

/// Who can see a Go name: everyone where it starts with an upper case letter,
/// else its package.
pub open spec fn visibility_of(name: Seq<char>) -> Visibility {
    if starts_upper(name) {
        Visibility::Public
    } else {
        Visibility::Internal
    }
}

/// Who can see a Go name.
pub fn name_visibility(name: &str) -> (visibility: Visibility)
    ensures
        visibility == visibility_of(name@),
{
    if is_capitalized(name) {
        Visibility::Public
    } else {
        Visibility::Internal
    }
}

/// What starts at a Go function: the program at `main` in the package `main`,
/// the answer to a request at a method `ServeHTTP`.
pub open spec fn entry_points_of(name: Seq<char>, is_method: bool, is_pkg_main: bool) -> Seq<
    EntryPointView,
> {
    if !is_method && is_pkg_main && name == "main"@ {
        seq![EntryPointView::Main]
    } else if is_method && name == "ServeHTTP"@ {
        seq![EntryPointView::HttpRoute("ServeHTTP"@)]
    } else {
        Seq::empty()
    }
}

/// What starts at a Go function.
pub fn entry_points_for_go(name: &str, is_method: bool, is_pkg_main: bool) -> (markers: Vec<
    EntryPoint,
>)
    ensures
        views(markers@) == entry_points_of(name@, is_method, is_pkg_main),
{
    let mut markers: Vec<EntryPoint> = Vec::new();
    proof {
        views_empty::<EntryPoint>();
    }
    if !is_method && is_pkg_main && same(name, "main") {
        put(&mut markers, EntryPoint::Main);
    }
    if is_method && same(name, "ServeHTTP") {
        put(&mut markers, EntryPoint::HttpRoute("ServeHTTP".to_owned()));
    }
    markers
}

/// The name of the type `i`: without pointers, without the package that it is
/// qualified with and without its arguments. A type without a name has none.
pub open spec fn type_leaf_name(t: Syntax, i: int) -> Option<Seq<char>>
    decreases t.left(i), 0nat,
{
    if !t.has(i) {
        None
    } else if t.kind(i) == "type_identifier"@ {
        Some(t.text(i))
    } else if t.kind(i) == "qualified_type"@ {
        match t.child(i, "name"@) {
            Some(name) => type_leaf_name(t, name),
            None => None,
        }
    } else if t.kind(i) == "pointer_type"@ {
        type_leaf_name_in(t, i + 1, t.after(i))
    } else if t.kind(i) == "generic_type"@ {
        match t.child(i, "type"@) {
            Some(base) => type_leaf_name(t, base),
            None => None,
        }
    } else {
        None
    }
}

/// The name of the first type among the named nodes of `lo..hi` that has one.
pub open spec fn type_leaf_name_in(t: Syntax, lo: int, hi: int) -> Option<Seq<char>>
    decreases t.left(lo), 1nat,
{
    if lo >= hi || !t.has(lo) {
        None
    } else if t.named(lo) && type_leaf_name(t, lo) is Some {
        type_leaf_name(t, lo)
    } else {
        type_leaf_name_in(t, t.next(lo, hi), hi)
    }
}

/// The name of the type `i`.
fn go_type_leaf_name(tree: &SyntaxTree, i: usize) -> (name: Option<String>)
    requires
        i < tree@.len(),
    ensures
        opt_text(name) == type_leaf_name(tree@, i as int),
    decreases tree@.left(i as int),
{
    if tree.is(i, "type_identifier") {
        return Some(tree.text(i).to_owned());
    }
    if tree.is(i, "qualified_type") {
        return match tree.child(i, "name") {
            Some(name) => go_type_leaf_name(tree, name),
            None => None,
        };
    }
    if tree.is(i, "pointer_type") {
        let hi: usize = tree.after(i);
        let mut lo: usize = i + 1;
        while lo < hi
            invariant
                i < lo,
                i < tree@.len(),
                hi == tree@.after(i as int),
                hi <= tree@.len(),
                type_leaf_name_in(tree@, lo as int, hi as int) == type_leaf_name(tree@, i as int),
            decreases hi - lo,
        {
            if tree.named(lo) {
                if let Some(name) = go_type_leaf_name(tree, lo) {
                    return Some(name);
                }
            }
            lo = tree.next(lo, hi);
        }
        return None;
    }
    if tree.is(i, "generic_type") {
        return match tree.child(i, "type") {
            Some(base) => go_type_leaf_name(tree, base),
            None => None,
        };
    }
    None
}

/// The name of the type of node `i`.
pub open spec fn typed_name(t: Syntax, i: int) -> Option<Seq<char>> {
    match t.child(i, "type"@) {
        Some(ty) => type_leaf_name(t, ty),
        None => None,
    }
}

/// The name of the type of node `i`.
fn go_typed_name(tree: &SyntaxTree, i: usize) -> (name: Option<String>)
    requires
        i < tree@.len(),
    ensures
        opt_text(name) == typed_name(tree@, i as int),
{
    match tree.child(i, "type") {
        Some(ty) => go_type_leaf_name(tree, ty),
        None => None,
    }
}

/// The name of the type of the receiver of the method `i`.
pub open spec fn receiver_type(t: Syntax, i: int) -> Option<Seq<char>> {
    match t.child(i, "receiver"@) {
        Some(receiver) => match t.named_child_of_kind(receiver, "parameter_declaration"@) {
            Some(param) => typed_name(t, param),
            None => None,
        },
        None => None,
    }
}

/// The name of the type of the receiver of the method `i`.
fn go_receiver_type(tree: &SyntaxTree, i: usize) -> (name: Option<String>)
    requires
        i < tree@.len(),
    ensures
        opt_text(name) == receiver_type(tree@, i as int),
{
    match tree.child(i, "receiver") {
        Some(receiver) => match tree.named_child_of_kind(receiver, "parameter_declaration") {
            Some(param) => go_typed_name(tree, param),
            None => None,
        },
        None => None,
    }
}

/// A definition in a Go file: who can see it goes by its name, its signature ends
/// where its body starts.
pub open spec fn definition(
    c: Ctx,
    prefix: Seq<DescriptorView>,
    i: int,
    name: Seq<char>,
    kind: SymbolKind,
    leaf: DescriptorView,
) -> SymbolView {
    defined_at(c, prefix, i, name, kind, visibility_of(name), leaf, "{"@)
}

/// The function or method that node `i` defines. A method stands under the type
/// of its receiver, where that has a name.
pub open spec fn function_symbols(
    c: Ctx,
    prefix: Seq<DescriptorView>,
    i: int,
    is_method: bool,
    is_pkg_main: bool,
) -> Seq<SymbolView> {
    match c.tree.field_text(i, "name"@) {
        Some(name) => {
            let owner = match receiver_type(c.tree, i) {
                Some(ty) => if is_method {
                    prefix + seq![DescriptorView::Type(ty)]
                } else {
                    prefix
                },
                None => prefix,
            };
            let kind = if is_method {
                SymbolKind::Method
            } else {
                SymbolKind::Function
            };
            seq![
                SymbolView {
                    entry_points: entry_points_of(name, is_method, is_pkg_main),
                    ..definition(c, owner, i, name, kind, method_view(name))
                },
            ]
        },
        None => Seq::empty(),
    }
}

/// Adds the function or method that node `i` defines.
fn push_function(
    ctx: &ExtractCtx<'_>,
    i: usize,
    prefix: &Vec<Descriptor>,
    is_method: bool,
    is_pkg_main: bool,
    out: &mut Vec<Symbol>,
)
    requires
        i < ctx.tree@.len(),
    ensures
        views(final(out)@) == views(old(out)@) + function_symbols(
            ctx@,
            views(prefix@),
            i as int,
            is_method,
            is_pkg_main,
        ),
{
    let tree = ctx.tree;
    if let Some(name) = tree.field_text(i, "name") {
        let visibility = name_visibility(name.as_str());
        let entry_points = entry_points_for_go(name.as_str(), is_method, is_pkg_main);
        let mut owner = copy_descriptors(prefix);
        let receiver = go_receiver_type(tree, i);
        if is_method {
            if let Some(ty) = receiver {
                put(&mut owner, Descriptor::Type(ty));
            }
        }
        let kind = if is_method {
            SymbolKind::Method
        } else {
            SymbolKind::Function
        };
        let leaf = Descriptor::method(name.as_str().to_owned());
        let mut symbol = define(ctx, &owner, i, name, kind, visibility, leaf, "{");
        symbol.entry_points = entry_points;
        put(out, symbol);
    }
}

/// The kind of the type that the specification `i` defines: that of a struct or
/// an interface, or an alias.
pub open spec fn type_kind(t: Syntax, i: int) -> SymbolKind {
    match t.child(i, "type"@) {
        Some(ty) => if t.kind(i) != "type_spec"@ {
            SymbolKind::TypeAlias
        } else if t.kind(ty) == "struct_type"@ {
            SymbolKind::Struct
        } else if t.kind(ty) == "interface_type"@ {
            SymbolKind::Interface
        } else {
            SymbolKind::TypeAlias
        },
        None => SymbolKind::TypeAlias,
    }
}

/// The type that the specification `i` defines.
pub open spec fn type_symbols(c: Ctx, prefix: Seq<DescriptorView>, i: int) -> Seq<SymbolView> {
    let kind = c.tree.kind(i);
    match c.tree.field_text(i, "name"@) {
        Some(name) => if kind == "type_spec"@ || kind == "type_alias"@ {
            seq![
                definition(
                    c,
                    prefix,
                    i,
                    name,
                    type_kind(c.tree, i),
                    DescriptorView::Type(name),
                ),
            ]
        } else {
            Seq::empty()
        },
        None => Seq::empty(),
    }
}

/// The types that the specifications among `lo..hi` define.
pub open spec fn types_in(c: Ctx, prefix: Seq<DescriptorView>, lo: int, hi: int) -> Seq<SymbolView>
    decreases hi - lo,
{
    if lo >= hi {
        Seq::empty()
    } else {
        type_symbols(c, prefix, lo) + types_in(c, prefix, c.tree.next(lo, hi), hi)
    }
}

/// Adds the types that the specifications in the declaration `i` define.
fn push_types(ctx: &ExtractCtx<'_>, i: usize, prefix: &Vec<Descriptor>, out: &mut Vec<Symbol>)
    requires
        i < ctx.tree@.len(),
    ensures
        views(final(out)@)
            == views(old(out)@) + types_in(ctx@, views(prefix@), i + 1, ctx.tree@.after(i as int)),
{
    let tree = ctx.tree;
    let hi: usize = tree.after(i);
    let mut lo: usize = i + 1;
    while lo < hi
        invariant
            i < lo,
            i < tree@.len(),
            tree == ctx.tree,
            hi == tree@.after(i as int),
            hi <= tree@.len(),
            views(out@) + types_in(ctx@, views(prefix@), lo as int, hi as int) == views(old(out)@)
                + types_in(ctx@, views(prefix@), i + 1, hi as int),
        decreases hi - lo,
    {
        if tree.is(lo, "type_spec") || tree.is(lo, "type_alias") {
            if let Some(name) = tree.field_text(lo, "name") {
                let kind = match tree.child(lo, "type") {
                    Some(ty) => if !tree.is(lo, "type_spec") {
                        SymbolKind::TypeAlias
                    } else if tree.is(ty, "struct_type") {
                        SymbolKind::Struct
                    } else if tree.is(ty, "interface_type") {
                        SymbolKind::Interface
                    } else {
                        SymbolKind::TypeAlias
                    },
                    None => SymbolKind::TypeAlias,
                };
                let visibility = name_visibility(name.as_str());
                let leaf = Descriptor::Type(name.as_str().to_owned());
                let symbol = define(ctx, prefix, lo, name, kind, visibility, leaf, "{");
                put(out, symbol);
            }
        }
        lo = tree.next(lo, hi);
    }
}

/// The constants or variables that the names among `lo..hi` of the specification
/// `owner` define.
pub open spec fn names_in(
    c: Ctx,
    prefix: Seq<DescriptorView>,
    owner: int,
    kind: SymbolKind,
    lo: int,
    hi: int,
) -> Seq<SymbolView>
    decreases hi - lo,
{
    if lo >= hi {
        Seq::empty()
    } else {
        (if c.tree.kind(lo) == "identifier"@ {
            seq![
                definition(
                    c,
                    prefix,
                    owner,
                    c.tree.text(lo),
                    kind,
                    DescriptorView::Term(c.tree.text(lo)),
                ),
            ]
        } else {
            Seq::empty()
        }) + names_in(c, prefix, owner, kind, c.tree.next(lo, hi), hi)
    }
}

/// Adds the constants or variables that the names under node `i` of the
/// specification `owner` define.
fn push_names(
    ctx: &ExtractCtx<'_>,
    i: usize,
    prefix: &Vec<Descriptor>,
    owner: usize,
    kind: SymbolKind,
    out: &mut Vec<Symbol>,
)
    requires
        i < ctx.tree@.len(),
    ensures
        views(final(out)@)
            == views(old(out)@)
                + names_in(
                    ctx@,
                    views(prefix@),
                    owner as int,
                    kind,
                    i + 1,
                    ctx.tree@.after(i as int),
                ),
{
    let tree = ctx.tree;
    let hi: usize = tree.after(i);
    let mut lo: usize = i + 1;
    while lo < hi
        invariant
            i < lo,
            i < tree@.len(),
            tree == ctx.tree,
            hi == tree@.after(i as int),
            hi <= tree@.len(),
            views(out@) + names_in(ctx@, views(prefix@), owner as int, kind, lo as int, hi as int)
                == views(old(out)@)
                + names_in(ctx@, views(prefix@), owner as int, kind, i + 1, hi as int),
        decreases hi - lo,
    {
        if tree.is(lo, "identifier") {
            let name = tree.text(lo).to_owned();
            let visibility = name_visibility(name.as_str());
            let leaf = Descriptor::Term(tree.text(lo).to_owned());
            let symbol = define(ctx, prefix, owner, name, kind, visibility, leaf, "{");
            put(out, symbol);
        }
        lo = tree.next(lo, hi);
    }
}

/// What the specifications of the kind `spec_kind` among `lo..hi` define.
pub open spec fn specs_in(
    c: Ctx,
    prefix: Seq<DescriptorView>,
    spec_kind: Seq<char>,
    kind: SymbolKind,
    lo: int,
    hi: int,
) -> Seq<SymbolView>
    decreases hi - lo,
{
    if lo >= hi {
        Seq::empty()
    } else {
        (if c.tree.kind(lo) == spec_kind {
            names_in(c, prefix, lo, kind, lo + 1, c.tree.after(lo))
        } else {
            Seq::empty()
        }) + specs_in(c, prefix, spec_kind, kind, c.tree.next(lo, hi), hi)
    }
}

/// Adds what the specifications in the declaration `i` define.
fn push_specs(
    ctx: &ExtractCtx<'_>,
    i: usize,
    prefix: &Vec<Descriptor>,
    spec_kind: &str,
    kind: SymbolKind,
    out: &mut Vec<Symbol>,
)
    requires
        i < ctx.tree@.len(),
    ensures
        views(final(out)@)
            == views(old(out)@)
                + specs_in(
                    ctx@,
                    views(prefix@),
                    spec_kind@,
                    kind,
                    i + 1,
                    ctx.tree@.after(i as int),
                ),
{
    let tree = ctx.tree;
    let hi: usize = tree.after(i);
    let mut lo: usize = i + 1;
    while lo < hi
        invariant
            i < lo,
            i < tree@.len(),
            tree == ctx.tree,
            hi == tree@.after(i as int),
            hi <= tree@.len(),
            views(out@) + specs_in(ctx@, views(prefix@), spec_kind@, kind, lo as int, hi as int)
                == views(old(out)@)
                + specs_in(ctx@, views(prefix@), spec_kind@, kind, i + 1, hi as int),
        decreases hi - lo,
    {
        if tree.is(lo, spec_kind) {
            push_names(ctx, lo, prefix, lo, kind, out);
        }
        lo = tree.next(lo, hi);
    }
}

/// The variables that the specifications among `lo..hi` define, alone or in a
/// list.
pub open spec fn variables_in(
    c: Ctx,
    prefix: Seq<DescriptorView>,
    lo: int,
    hi: int,
) -> Seq<SymbolView>
    decreases hi - lo,
{
    if lo >= hi {
        Seq::empty()
    } else {
        (if c.tree.kind(lo) == "var_spec_list"@ {
            specs_in(c, prefix, "var_spec"@, SymbolKind::Static, lo + 1, c.tree.after(lo))
        } else if c.tree.kind(lo) == "var_spec"@ {
            names_in(c, prefix, lo, SymbolKind::Static, lo + 1, c.tree.after(lo))
        } else {
            Seq::empty()
        }) + variables_in(c, prefix, c.tree.next(lo, hi), hi)
    }
}

/// Adds the variables that the declaration `i` defines.
fn push_variables(ctx: &ExtractCtx<'_>, i: usize, prefix: &Vec<Descriptor>, out: &mut Vec<Symbol>)
    requires
        i < ctx.tree@.len(),
    ensures
        views(final(out)@)
            == views(old(out)@)
                + variables_in(ctx@, views(prefix@), i + 1, ctx.tree@.after(i as int)),
{
    let tree = ctx.tree;
    let hi: usize = tree.after(i);
    let mut lo: usize = i + 1;
    while lo < hi
        invariant
            i < lo,
            i < tree@.len(),
            tree == ctx.tree,
            hi == tree@.after(i as int),
            hi <= tree@.len(),
            views(out@) + variables_in(ctx@, views(prefix@), lo as int, hi as int)
                == views(old(out)@)
                + variables_in(ctx@, views(prefix@), i + 1, hi as int),
        decreases hi - lo,
    {
        if tree.is(lo, "var_spec_list") {
            push_specs(ctx, lo, prefix, "var_spec", SymbolKind::Static, out);
        } else if tree.is(lo, "var_spec") {
            push_names(ctx, lo, prefix, lo, SymbolKind::Static, out);
        }
        lo = tree.next(lo, hi);
    }
}

/// What the node `i` at the top of a Go file defines.
pub open spec fn symbols_at(c: Ctx, prefix: Seq<DescriptorView>, is_pkg_main: bool, i: int) -> Seq<
    SymbolView,
> {
    let kind = c.tree.kind(i);
    let hi = c.tree.after(i);
    if kind == "function_declaration"@ {
        function_symbols(c, prefix, i, false, is_pkg_main)
    } else if kind == "method_declaration"@ {
        function_symbols(c, prefix, i, true, is_pkg_main)
    } else if kind == "type_declaration"@ {
        types_in(c, prefix, i + 1, hi)
    } else if kind == "const_declaration"@ {
        specs_in(c, prefix, "const_spec"@, SymbolKind::Const, i + 1, hi)
    } else if kind == "var_declaration"@ {
        variables_in(c, prefix, i + 1, hi)
    } else {
        Seq::empty()
    }
}

/// What the nodes `lo..hi` at the top of a Go file define.
pub open spec fn symbols_in(
    c: Ctx,
    prefix: Seq<DescriptorView>,
    is_pkg_main: bool,
    lo: int,
    hi: int,
) -> Seq<SymbolView>
    decreases hi - lo,
{
    if lo >= hi {
        Seq::empty()
    } else {
        symbols_at(c, prefix, is_pkg_main, lo)
            + symbols_in(c, prefix, is_pkg_main, c.tree.next(lo, hi), hi)
    }
}

/// Adds what the children of node `i` define.
fn push_symbols(
    ctx: &ExtractCtx<'_>,
    i: usize,
    prefix: &Vec<Descriptor>,
    is_pkg_main: bool,
    out: &mut Vec<Symbol>,
)
    requires
        i < ctx.tree@.len(),
    ensures
        views(final(out)@)
            == views(old(out)@)
                + symbols_in(ctx@, views(prefix@), is_pkg_main, i + 1, ctx.tree@.after(i as int)),
{
    let tree = ctx.tree;
    let hi: usize = tree.after(i);
    let mut lo: usize = i + 1;
    while lo < hi
        invariant
            i < lo,
            i < tree@.len(),
            tree == ctx.tree,
            hi == tree@.after(i as int),
            hi <= tree@.len(),
            views(out@) + symbols_in(ctx@, views(prefix@), is_pkg_main, lo as int, hi as int)
                == views(old(out)@)
                + symbols_in(ctx@, views(prefix@), is_pkg_main, i + 1, hi as int),
        decreases hi - lo,
    {
        if tree.is(lo, "function_declaration") {
            push_function(ctx, lo, prefix, false, is_pkg_main, out);
        } else if tree.is(lo, "method_declaration") {
            push_function(ctx, lo, prefix, true, is_pkg_main, out);
        } else if tree.is(lo, "type_declaration") {
            push_types(ctx, lo, prefix, out);
        } else if tree.is(lo, "const_declaration") {
            push_specs(ctx, lo, prefix, "const_spec", SymbolKind::Const, out);
        } else if tree.is(lo, "var_declaration") {
            push_variables(ctx, lo, prefix, out);
        }
        lo = tree.next(lo, hi);
    }
}

/// What a Go file defines.
fn collect_symbols(ctx: &ExtractCtx<'_>, namespaces: &Vec<String>, is_pkg_main: bool) -> (out: Vec<
    Symbol,
>)
    ensures
        views(out@) == symbols_in(
            ctx@,
            namespace_steps(views(namespaces@)),
            is_pkg_main,
            1,
            ctx.tree@.after(0),
        ),
{
    let prefix = namespace_descriptors(namespaces);
    let mut out: Vec<Symbol> = Vec::new();
    proof {
        views_empty::<Symbol>();
    }
    if ctx.tree.len() > 0 {
        push_symbols(ctx, 0, &prefix, is_pkg_main, &mut out);
    }
    out
}

// ── Imports ──────────────────────────────────────────────────────────────────

/// The import that the specification `i` names: the last piece of its path.
pub open spec fn import_of(t: Syntax, file: Seq<char>, i: int) -> Seq<ReferenceView> {
    match t.child(i, "path"@) {
        Some(path) => if t.kind(i) == "import_spec"@ {
            let plain = trimmed_of(trimmed_of(t.text(path), '"'), '`');
            seq![reference_at(t, file, path, simple_name(plain, "/"@), RefRole::Import)]
        } else {
            Seq::empty()
        },
        None => Seq::empty(),
    }
}

/// The imports in the subtree of node `i`.
pub open spec fn imports_at(t: Syntax, file: Seq<char>, i: int) -> Seq<ReferenceView>
    decreases t.left(i), 0nat,
{
    if !t.has(i) {
        Seq::empty()
    } else if t.kind(i) == "import_spec"@ {
        import_of(t, file, i)
    } else {
        import_of(t, file, i) + imports_in(t, file, i + 1, t.after(i))
    }
}

/// The imports in the subtrees of the nodes `lo..hi`.
pub open spec fn imports_in(t: Syntax, file: Seq<char>, lo: int, hi: int) -> Seq<ReferenceView>
    decreases t.left(lo), 1nat,
{
    if lo >= hi || !t.has(lo) {
        Seq::empty()
    } else {
        imports_at(t, file, lo) + imports_in(t, file, t.next(lo, hi), hi)
    }
}

/// Adds the imports in the subtree of node `i`.
fn collect_imports(tree: &SyntaxTree, i: usize, file: &str, out: &mut Vec<Reference>)
    requires
        i < tree@.len(),
    ensures
        views(final(out)@) == views(old(out)@) + imports_at(tree@, file@, i as int),
    decreases tree@.left(i as int),
{
    if tree.is(i, "import_spec") {
        if let Some(path) = tree.child(i, "path") {
            let plain = trim_of(trim_of(tree.text(path), '"'), '`');
            let leaf = simple_type_name(plain, "/");
            push_ref(out, tree, file, path, leaf, RefRole::Import);
        }
    }
    if tree.is(i, "import_spec") {
        return ;
    }
    let hi: usize = tree.after(i);
    let mut lo: usize = i + 1;
    while lo < hi
        invariant
            i < lo,
            i < tree@.len(),
            hi == tree@.after(i as int),
            hi <= tree@.len(),
            views(out@) + imports_in(tree@, file@, lo as int, hi as int) == views(old(out)@)
                + imports_at(tree@, file@, i as int),
        decreases hi - lo,
    {
        collect_imports(tree, lo, file, out);
        lo = tree.next(lo, hi);
    }
}

/// The imports of node `i` itself, for each `i`.
pub open spec fn imports_of_nodes(
    t: Syntax,
    file: Seq<char>,
) -> spec_fn(int) -> Seq<ReferenceView> {
    |j: int| import_of(t, file, j)
}

/// The imports in a subtree are those of its nodes, in document order: none is missed
/// and none is reported twice.
pub proof fn imports_in_document_order(t: Syntax, file: Seq<char>, i: int)
    requires
        t.nested(),
        t.has(i),
        forall|j: int, k: int|
            t.has(j) && t.kind(j) == "import_spec"@ && j < k < #[trigger] t.after(j)
                ==> #[trigger] t.kind(k) != "import_spec"@,
    ensures
        imports_at(t, file, i) == in_order(imports_of_nodes(t, file), i, t.after(i)),
    decreases t.left(i), 0nat,
{
    let items = imports_of_nodes(t, file);
    if t.kind(i) == "import_spec"@ {
        in_order_none(items, i + 1, t.after(i));
    } else {
        imports_of_siblings(t, file, i + 1, t.after(i));
    }
    assert(in_order(items, i, t.after(i)) == items(i) + in_order(items, i + 1, t.after(i)));
    assert(Seq::<ReferenceView>::empty() + items(i) =~= items(i) + Seq::<ReferenceView>::empty());
}

proof fn imports_of_siblings(t: Syntax, file: Seq<char>, lo: int, hi: int)
    requires
        t.nested(),
        t.closed_range(lo, hi),
        forall|j: int, k: int|
            t.has(j) && t.kind(j) == "import_spec"@ && j < k < #[trigger] t.after(j)
                ==> #[trigger] t.kind(k) != "import_spec"@,
    ensures
        imports_in(t, file, lo, hi) == in_order(imports_of_nodes(t, file), lo, hi),
    decreases t.left(lo), 1nat,
{
    if lo < hi {
        let items = imports_of_nodes(t, file);
        imports_in_document_order(t, file, lo);
        imports_of_siblings(t, file, t.after(lo), hi);
        in_order_split(items, lo, t.after(lo), hi);
    }
}

// ── Reads and writes ─────────────────────────────────────────────────────────

/// Whether the list of expressions `list` is on the left of a definition, an
/// assignment or a range.
pub open spec fn is_left(t: Syntax, list: int) -> bool {
    match t.parent(list) {
        Some(p) => (t.kind(p) == "short_var_declaration"@ || t.kind(p) == "assignment_statement"@
            || t.kind(p) == "range_clause"@) && t.child(p, "left"@) == Some(list),
        None => false,
    }
}

/// Whether the identifier `i` stands where it is not read: where it is called,
/// introduced or assigned to.
pub open spec fn not_read(t: Syntax, i: int) -> bool {
    match t.parent(i) {
        None => true,
        Some(p) => {
            let kind = t.kind(p);
            if kind == "call_expression"@ {
                t.child(p, "function"@) == Some(i)
            } else if kind == "function_declaration"@ || kind == "method_declaration"@ || kind
                == "func_literal"@ {
                t.child(p, "name"@) == Some(i)
            } else if kind == "const_spec"@ || kind == "var_spec"@ || kind
                == "parameter_declaration"@ || kind == "variadic_parameter_declaration"@ {
                t.in_field(i, "name"@)
            } else {
                kind == "expression_list"@ && is_left(t, p)
            }
        },
    }
}

/// Whether the list of expressions `list` is on the left of a definition, an
/// assignment or a range.
fn is_left_list(tree: &SyntaxTree, list: usize) -> (b: bool)
    ensures
        b == is_left(tree@, list as int),
{
    match tree.parent(list) {
        Some(p) => (tree.is(p, "short_var_declaration") || tree.is(p, "assignment_statement")
            || tree.is(p, "range_clause")) && tree.is_child(p, "left", list),
        None => false,
    }
}

/// Whether the identifier `i` stands where it is not read.
fn is_non_read_position(tree: &SyntaxTree, i: usize) -> (b: bool)
    ensures
        b == not_read(tree@, i as int),
{
    match tree.parent(i) {
        None => true,
        Some(p) => {
            if tree.is(p, "call_expression") {
                tree.is_child(p, "function", i)
            } else if tree.is(p, "function_declaration") || tree.is(p, "method_declaration")
                || tree.is(p, "func_literal") {
                tree.is_child(p, "name", i)
            } else if tree.is(p, "const_spec") || tree.is(p, "var_spec") || tree.is(
                p,
                "parameter_declaration",
            ) || tree.is(p, "variadic_parameter_declaration") {
                tree.in_field(i, "name")
            } else {
                tree.is(p, "expression_list") && is_left_list(tree, p)
            }
        },
    }
}

/// The read that the identifier `i` is, where it is long enough and stands where
/// it is read.
pub open spec fn read_of(t: Syntax, file: Seq<char>, i: int) -> Seq<ReferenceView> {
    if (t.kind(i) == "identifier"@) && reportable(t.text(i)) && !not_read(t, i) {
        seq![reference_at(t, file, i, t.text(i), RefRole::Read)]
    } else {
        Seq::empty()
    }
}

/// The reads in the subtree of node `i`.
pub open spec fn reads_at(t: Syntax, file: Seq<char>, i: int) -> Seq<ReferenceView>
    decreases t.left(i), 0nat,
{
    if !t.has(i) {
        Seq::empty()
    } else if t.kind(i) == "identifier"@ {
        read_of(t, file, i)
    } else {
        read_of(t, file, i) + reads_in(t, file, i + 1, t.after(i))
    }
}

/// The reads in the subtrees of the nodes `lo..hi`.
pub open spec fn reads_in(t: Syntax, file: Seq<char>, lo: int, hi: int) -> Seq<ReferenceView>
    decreases t.left(lo), 1nat,
{
    if lo >= hi || !t.has(lo) {
        Seq::empty()
    } else {
        reads_at(t, file, lo) + reads_in(t, file, t.next(lo, hi), hi)
    }
}

/// Adds the reads in the subtree of node `i`.
fn collect_read_references(tree: &SyntaxTree, i: usize, file: &str, out: &mut Vec<Reference>)
    requires
        i < tree@.len(),
    ensures
        views(final(out)@) == views(old(out)@) + reads_at(tree@, file@, i as int),
    decreases tree@.left(i as int),
{
    if tree.is(i, "identifier") {
        let name = tree.text(i);
        if is_reportable(name) && !is_non_read_position(tree, i) {
            push_ref(out, tree, file, i, name, RefRole::Read);
        }
    }
    if tree.is(i, "identifier") {
        return ;
    }
    let hi: usize = tree.after(i);
    let mut lo: usize = i + 1;
    while lo < hi
        invariant
            i < lo,
            i < tree@.len(),
            hi == tree@.after(i as int),
            hi <= tree@.len(),
            views(out@) + reads_in(tree@, file@, lo as int, hi as int) == views(old(out)@)
                + reads_at(tree@, file@, i as int),
        decreases hi - lo,
    {
        collect_read_references(tree, lo, file, out);
        lo = tree.next(lo, hi);
    }
}

/// The reads of node `i` itself, for each `i`.
pub open spec fn reads_of_nodes(t: Syntax, file: Seq<char>) -> spec_fn(int) -> Seq<ReferenceView> {
    |j: int| read_of(t, file, j)
}

/// The reads in a subtree are those of its nodes, in document order: none is missed
/// and none is reported twice.
pub proof fn reads_in_document_order(t: Syntax, file: Seq<char>, i: int)
    requires
        t.nested(),
        t.has(i),
        forall|j: int, k: int|
            t.has(j) && t.kind(j) == "identifier"@ && j < k < #[trigger] t.after(j)
                ==> #[trigger] t.kind(k) != "identifier"@,
    ensures
        reads_at(t, file, i) == in_order(reads_of_nodes(t, file), i, t.after(i)),
    decreases t.left(i), 0nat,
{
    let items = reads_of_nodes(t, file);
    if t.kind(i) == "identifier"@ {
        in_order_none(items, i + 1, t.after(i));
    } else {
        reads_of_siblings(t, file, i + 1, t.after(i));
    }
    assert(in_order(items, i, t.after(i)) == items(i) + in_order(items, i + 1, t.after(i)));
    assert(Seq::<ReferenceView>::empty() + items(i) =~= items(i) + Seq::<ReferenceView>::empty());
}

proof fn reads_of_siblings(t: Syntax, file: Seq<char>, lo: int, hi: int)
    requires
        t.nested(),
        t.closed_range(lo, hi),
        forall|j: int, k: int|
            t.has(j) && t.kind(j) == "identifier"@ && j < k < #[trigger] t.after(j)
                ==> #[trigger] t.kind(k) != "identifier"@,
    ensures
        reads_in(t, file, lo, hi) == in_order(reads_of_nodes(t, file), lo, hi),
    decreases t.left(lo), 1nat,
{
    if lo < hi {
        let items = reads_of_nodes(t, file);
        reads_in_document_order(t, file, lo);
        reads_of_siblings(t, file, t.after(lo), hi);
        in_order_split(items, lo, t.after(lo), hi);
    }
}

/// The write to the target `i` of an assignment, where it is an identifier that
/// is long enough.
pub open spec fn write_to(t: Syntax, file: Seq<char>, i: int) -> Seq<ReferenceView> {
    if t.kind(i) == "identifier"@ && reportable(t.text(i)) {
        seq![reference_at(t, file, i, t.text(i), RefRole::Write)]
    } else {
        Seq::empty()
    }
}

/// The writes to the targets `lo..hi`.
pub open spec fn writes_to(t: Syntax, file: Seq<char>, lo: int, hi: int) -> Seq<ReferenceView>
    decreases hi - lo,
{
    if lo >= hi {
        Seq::empty()
    } else {
        write_to(t, file, lo) + writes_to(t, file, t.next(lo, hi), hi)
    }
}

/// Adds the writes to the targets in the list `i`.
fn collect_targets(tree: &SyntaxTree, i: usize, file: &str, out: &mut Vec<Reference>)
    requires
        i < tree@.len(),
    ensures
        views(final(out)@)
            == views(old(out)@) + writes_to(tree@, file@, i + 1, tree@.after(i as int)),
{
    let hi: usize = tree.after(i);
    let mut lo: usize = i + 1;
    while lo < hi
        invariant
            i < lo,
            i < tree@.len(),
            hi == tree@.after(i as int),
            hi <= tree@.len(),
            views(out@) + writes_to(tree@, file@, lo as int, hi as int) == views(old(out)@)
                + writes_to(tree@, file@, i + 1, hi as int),
        decreases hi - lo,
    {
        let name = tree.text(lo);
        if tree.is(lo, "identifier") && is_reportable(name) {
            push_ref(out, tree, file, lo, name, RefRole::Write);
        }
        lo = tree.next(lo, hi);
    }
}

/// The writes of the assignment `i`.
pub open spec fn assignment_writes(t: Syntax, file: Seq<char>, i: int) -> Seq<ReferenceView> {
    match t.child(i, "left"@) {
        Some(targets) => if t.kind(i) == "assignment_statement"@ {
            writes_to(t, file, targets + 1, t.after(targets))
        } else {
            Seq::empty()
        },
        None => Seq::empty(),
    }
}

/// The writes in the subtree of node `i`.
pub open spec fn writes_at(t: Syntax, file: Seq<char>, i: int) -> Seq<ReferenceView>
    decreases t.left(i), 0nat,
{
    if !t.has(i) {
        Seq::empty()
    } else {
        assignment_writes(t, file, i) + writes_in(t, file, i + 1, t.after(i))
    }
}

/// The writes in the subtrees of the nodes `lo..hi`.
pub open spec fn writes_in(t: Syntax, file: Seq<char>, lo: int, hi: int) -> Seq<ReferenceView>
    decreases t.left(lo), 1nat,
{
    if lo >= hi || !t.has(lo) {
        Seq::empty()
    } else {
        writes_at(t, file, lo) + writes_in(t, file, t.next(lo, hi), hi)
    }
}

/// Adds the writes in the subtree of node `i`.
fn collect_write_references(tree: &SyntaxTree, i: usize, file: &str, out: &mut Vec<Reference>)
    requires
        i < tree@.len(),
    ensures
        views(final(out)@) == views(old(out)@) + writes_at(tree@, file@, i as int),
    decreases tree@.left(i as int),
{
    if tree.is(i, "assignment_statement") {
        if let Some(targets) = tree.child(i, "left") {
            collect_targets(tree, targets, file, out);
        }
    }
    let hi: usize = tree.after(i);
    let mut lo: usize = i + 1;
    while lo < hi
        invariant
            i < lo,
            i < tree@.len(),
            hi == tree@.after(i as int),
            hi <= tree@.len(),
            views(out@) + writes_in(tree@, file@, lo as int, hi as int) == views(old(out)@)
                + writes_at(tree@, file@, i as int),
        decreases hi - lo,
    {
        collect_write_references(tree, lo, file, out);
        lo = tree.next(lo, hi);
    }
}

/// The writes of node `i` itself, for each `i`.
pub open spec fn writes_of_nodes(t: Syntax, file: Seq<char>) -> spec_fn(int) -> Seq<ReferenceView> {
    |j: int| assignment_writes(t, file, j)
}

/// The writes in a subtree are those of its nodes, in document order: none is missed
/// and none is reported twice.
pub proof fn writes_in_document_order(t: Syntax, file: Seq<char>, i: int)
    requires
        t.nested(),
        t.has(i),
    ensures
        writes_at(t, file, i) == in_order(writes_of_nodes(t, file), i, t.after(i)),
    decreases t.left(i), 0nat,
{
    let items = writes_of_nodes(t, file);
    writes_of_siblings(t, file, i + 1, t.after(i));
    assert(in_order(items, i, t.after(i)) == items(i) + in_order(items, i + 1, t.after(i)));
    assert(Seq::<ReferenceView>::empty() + items(i) =~= items(i) + Seq::<ReferenceView>::empty());
}

proof fn writes_of_siblings(t: Syntax, file: Seq<char>, lo: int, hi: int)
    requires
        t.nested(),
        t.closed_range(lo, hi),
    ensures
        writes_in(t, file, lo, hi) == in_order(writes_of_nodes(t, file), lo, hi),
    decreases t.left(lo), 1nat,
{
    if lo < hi {
        let items = writes_of_nodes(t, file);
        writes_in_document_order(t, file, lo);
        writes_of_siblings(t, file, t.after(lo), hi);
        in_order_split(items, lo, t.after(lo), hi);
    }
}

// ── Type references ──────────────────────────────────────────────────────────

/// The references to types in the type `i`, which stands in the place `ctx`.
pub open spec fn leaves_at(t: Syntax, file: Seq<char>, ctx: TypeRefContext, i: int) -> Seq<
    ReferenceView,
>
    decreases t.left(i), 0nat,
{
    let kind = t.kind(i);
    if !t.has(i) {
        Seq::empty()
    } else if kind == "type_identifier"@ {
        seq![type_reference_at(t, file, i, t.text(i), ctx)]
    } else if kind == "qualified_type"@ {
        match t.child(i, "name"@) {
            Some(name) => leaves_at(t, file, ctx, name),
            None => Seq::empty(),
        }
    } else if kind == "slice_type"@ || kind == "array_type"@ {
        match t.child(i, "element"@) {
            Some(element) => leaves_at(t, file, ctx, element),
            None => Seq::empty(),
        }
    } else if kind == "map_type"@ {
        (match t.child(i, "key"@) {
            Some(key) => leaves_at(t, file, ctx, key),
            None => Seq::empty(),
        }) + match t.child(i, "value"@) {
            Some(value) => leaves_at(t, file, ctx, value),
            None => Seq::empty(),
        }
    } else if kind == "generic_type"@ {
        (match t.child(i, "type"@) {
            Some(base) => leaves_at(t, file, ctx, base),
            None => Seq::empty(),
        }) + match t.child(i, "type_arguments"@) {
            Some(args) => leaves_in(
                t,
                file,
                TypeRefContext::GenericArg,
                args + 1,
                t.after(args),
            ),
            None => Seq::empty(),
        }
    } else if kind == "channel_type"@ {
        match t.child(i, "value"@) {
            Some(value) => leaves_at(t, file, ctx, value),
            None => Seq::empty(),
        }
    } else {
        leaves_in(t, file, ctx, i + 1, t.after(i))
    }
}

/// The references to types of the named nodes among `lo..hi`.
pub open spec fn leaves_in(
    t: Syntax,
    file: Seq<char>,
    ctx: TypeRefContext,
    lo: int,
    hi: int,
) -> Seq<ReferenceView>
    decreases t.left(lo), 1nat,
{
    if lo >= hi || !t.has(lo) {
        Seq::empty()
    } else {
        (if t.named(lo) {
            leaves_at(t, file, ctx, lo)
        } else {
            Seq::empty()
        }) + leaves_in(t, file, ctx, t.next(lo, hi), hi)
    }
}

/// Adds the references to types of the named children of node `i`.
fn type_leaves(
    tree: &SyntaxTree,
    i: usize,
    file: &str,
    ctx: TypeRefContext,
    out: &mut Vec<Reference>,
)
    requires
        i < tree@.len(),
    ensures
        views(final(out)@) == views(old(out)@) + leaves_in(
            tree@, file@, ctx,
            i + 1,
            tree@.after(i as int),
        ),
    decreases tree@.left(i as int), 0nat,
{
    let hi: usize = tree.after(i);
    let mut lo: usize = i + 1;
    while lo < hi
        invariant
            i < lo,
            i < tree@.len(),
            hi == tree@.after(i as int),
            hi <= tree@.len(),
            views(out@) + leaves_in(tree@, file@, ctx, lo as int, hi as int) == views(old(out)@)
                + leaves_in(tree@, file@, ctx, i + 1, hi as int),
        decreases hi - lo,
    {
        if tree.named(lo) {
            type_leaf(tree, lo, file, ctx, out);
        }
        lo = tree.next(lo, hi);
    }
}

/// Adds the references to types in the type `i`.
fn type_leaf(
    tree: &SyntaxTree,
    i: usize,
    file: &str,
    ctx: TypeRefContext,
    out: &mut Vec<Reference>,
)
    requires
        i < tree@.len(),
    ensures
        views(final(out)@) == views(old(out)@) + leaves_at(tree@, file@, ctx, i as int),
    decreases tree@.left(i as int), 1nat,
{
    if tree.is(i, "type_identifier") {
        push_type_ref(out, tree, file, i, tree.text(i), ctx);
    } else if tree.is(i, "qualified_type") {
        if let Some(name) = tree.child(i, "name") {
            type_leaf(tree, name, file, ctx, out);
        }
    } else if tree.is(i, "slice_type") || tree.is(i, "array_type") {
        if let Some(element) = tree.child(i, "element") {
            type_leaf(tree, element, file, ctx, out);
        }
    } else if tree.is(i, "map_type") {
        if let Some(key) = tree.child(i, "key") {
            type_leaf(tree, key, file, ctx, out);
        }
        if let Some(value) = tree.child(i, "value") {
            type_leaf(tree, value, file, ctx, out);
        }
    } else if tree.is(i, "generic_type") {
        if let Some(base) = tree.child(i, "type") {
            type_leaf(tree, base, file, ctx, out);
        }
        if let Some(args) = tree.child(i, "type_arguments") {
            type_leaves(tree, args, file, TypeRefContext::GenericArg, out);
        }
    } else if tree.is(i, "channel_type") {
        if let Some(value) = tree.child(i, "value") {
            type_leaf(tree, value, file, ctx, out);
        }
    } else {
        type_leaves(tree, i, file, ctx, out);
    }
}

/// The references to types in the type of node `i`.
pub open spec fn typed_refs(t: Syntax, file: Seq<char>, ctx: TypeRefContext, i: int) -> Seq<
    ReferenceView,
> {
    match t.child(i, "type"@) {
        Some(ty) => leaves_at(t, file, ctx, ty),
        None => Seq::empty(),
    }
}

/// Adds the references to types in the type of node `i`.
fn push_typed_refs(
    tree: &SyntaxTree,
    i: usize,
    file: &str,
    ctx: TypeRefContext,
    out: &mut Vec<Reference>,
)
    requires
        i < tree@.len(),
    ensures
        views(final(out)@) == views(old(out)@) + typed_refs(tree@, file@, ctx, i as int),
{
    if let Some(ty) = tree.child(i, "type") {
        type_leaf(tree, ty, file, ctx, out);
    }
}

/// The references to types in the results `lo..hi` of a function.
pub open spec fn results_in(t: Syntax, file: Seq<char>, lo: int, hi: int) -> Seq<ReferenceView>
    decreases hi - lo,
{
    if lo >= hi {
        Seq::empty()
    } else {
        (if !t.named(lo) {
            Seq::empty()
        } else if t.kind(lo) == "parameter_declaration"@ {
            typed_refs(t, file, TypeRefContext::ReturnType, lo)
        } else {
            leaves_at(t, file, TypeRefContext::ReturnType, lo)
        }) + results_in(t, file, t.next(lo, hi), hi)
    }
}

/// Adds the references to types in the list of results `i`.
fn push_results(tree: &SyntaxTree, i: usize, file: &str, out: &mut Vec<Reference>)
    requires
        i < tree@.len(),
    ensures
        views(final(out)@)
            == views(old(out)@) + results_in(tree@, file@, i + 1, tree@.after(i as int)),
{
    let hi: usize = tree.after(i);
    let mut lo: usize = i + 1;
    while lo < hi
        invariant
            i < lo,
            i < tree@.len(),
            hi == tree@.after(i as int),
            hi <= tree@.len(),
            views(out@) + results_in(tree@, file@, lo as int, hi as int) == views(old(out)@)
                + results_in(tree@, file@, i + 1, hi as int),
        decreases hi - lo,
    {
        if tree.named(lo) {
            if tree.is(lo, "parameter_declaration") {
                push_typed_refs(tree, lo, file, TypeRefContext::ReturnType, out);
            } else {
                type_leaf(tree, lo, file, TypeRefContext::ReturnType, out);
            }
        }
        lo = tree.next(lo, hi);
    }
}

/// The references to types in what the function `i` returns.
pub open spec fn result_refs(t: Syntax, file: Seq<char>, i: int) -> Seq<ReferenceView> {
    match t.child(i, "result"@) {
        Some(result) => if t.kind(result) == "parameter_list"@ {
            results_in(t, file, result + 1, t.after(result))
        } else {
            leaves_at(t, file, TypeRefContext::ReturnType, result)
        },
        None => Seq::empty(),
    }
}

/// The references to types of node `i` itself: in what a function returns, in
/// the type of a parameter and in that of a field.
pub open spec fn own_type_refs(t: Syntax, file: Seq<char>, i: int) -> Seq<ReferenceView> {
    let kind = t.kind(i);
    if kind == "parameter_declaration"@ || kind == "variadic_parameter_declaration"@ {
        typed_refs(t, file, TypeRefContext::ParameterType, i)
    } else if kind == "function_declaration"@ || kind == "method_declaration"@ {
        result_refs(t, file, i)
    } else if kind == "field_declaration"@ {
        typed_refs(t, file, TypeRefContext::Field, i)
    } else {
        Seq::empty()
    }
}

/// Whether the references to types in the subtree of node `i` are its own.
pub open spec fn is_typed(t: Syntax, i: int) -> bool {
    t.kind(i) == "parameter_declaration"@ || t.kind(i) == "variadic_parameter_declaration"@
        || t.kind(i) == "field_declaration"@
}

/// The references to types in the subtree of node `i`.
pub open spec fn type_refs_at(t: Syntax, file: Seq<char>, i: int) -> Seq<ReferenceView>
    decreases t.left(i), 0nat,
{
    if !t.has(i) {
        Seq::empty()
    } else if is_typed(t, i) {
        own_type_refs(t, file, i)
    } else {
        own_type_refs(t, file, i) + type_refs_in(t, file, i + 1, t.after(i))
    }
}

/// The references to types in the subtrees of the nodes `lo..hi`.
pub open spec fn type_refs_in(t: Syntax, file: Seq<char>, lo: int, hi: int) -> Seq<ReferenceView>
    decreases t.left(lo), 1nat,
{
    if lo >= hi || !t.has(lo) {
        Seq::empty()
    } else {
        type_refs_at(t, file, lo) + type_refs_in(t, file, t.next(lo, hi), hi)
    }
}

/// Adds the references to types in the subtree of node `i`.
fn collect_type_references(tree: &SyntaxTree, i: usize, file: &str, out: &mut Vec<Reference>)
    requires
        i < tree@.len(),
    ensures
        views(final(out)@) == views(old(out)@) + type_refs_at(tree@, file@, i as int),
    decreases tree@.left(i as int),
{
    if tree.is(i, "parameter_declaration") || tree.is(i, "variadic_parameter_declaration") {
        push_typed_refs(tree, i, file, TypeRefContext::ParameterType, out);
    } else if tree.is(i, "function_declaration") || tree.is(i, "method_declaration") {
        if let Some(result) = tree.child(i, "result") {
            if tree.is(result, "parameter_list") {
                push_results(tree, result, file, out);
            } else {
                type_leaf(tree, result, file, TypeRefContext::ReturnType, out);
            }
        }
    } else if tree.is(i, "field_declaration") {
        push_typed_refs(tree, i, file, TypeRefContext::Field, out);
    }
    if tree.is(i, "parameter_declaration") || tree.is(i, "variadic_parameter_declaration") || tree.is(
        i,
        "field_declaration",
    ) {
        return ;
    }
    let hi: usize = tree.after(i);
    let mut lo: usize = i + 1;
    while lo < hi
        invariant
            i < lo,
            i < tree@.len(),
            hi == tree@.after(i as int),
            hi <= tree@.len(),
            views(out@) + type_refs_in(tree@, file@, lo as int, hi as int) == views(old(out)@)
                + type_refs_at(tree@, file@, i as int),
        decreases hi - lo,
    {
        collect_type_references(tree, lo, file, out);
        lo = tree.next(lo, hi);
    }
}

// ── Scopes ───────────────────────────────────────────────────────────────────

/// The scopes, with those that node `i` opens under the scope `parent` behind
/// them: a function opens one, in which the statements of its body stand; so
/// does any other block.
pub open spec fn scopes_with(t: Syntax, i: int, parent: ScopeId, scopes: Seq<Scope>) -> Seq<Scope>
    decreases t.left(i), 0nat,
{
    if !t.has(i) {
        scopes
    } else if t.kind(i) == "function_declaration"@ || t.kind(i) == "method_declaration"@ || t.kind(i)
        == "func_literal"@ {
        let opened = scopes.push(
            Scope { parent: Some(parent), span: span_at(t, i), kind: ScopeKind::Function },
        );
        match t.child(i, "body"@) {
            Some(body) => scopes_with_all(
                t,
                body + 1,
                t.after(body),
                scopes.len() as usize,
                opened,
            ),
            None => opened,
        }
    } else if t.kind(i) == "block"@ {
        let opened = scopes.push(
            Scope { parent: Some(parent), span: span_at(t, i), kind: ScopeKind::Block },
        );
        scopes_with_all(t, i + 1, t.after(i), scopes.len() as usize, opened)
    } else {
        scopes_with_all(t, i + 1, t.after(i), parent, scopes)
    }
}

/// The scopes, with those that the nodes `lo..hi` open under the scope `parent`
/// behind them.
pub open spec fn scopes_with_all(
    t: Syntax,
    lo: int,
    hi: int,
    parent: ScopeId,
    scopes: Seq<Scope>,
) -> Seq<Scope>
    decreases t.left(lo), 1nat,
{
    if lo >= hi || !t.has(lo) {
        scopes
    } else {
        scopes_with_all(t, t.next(lo, hi), hi, parent, scopes_with(t, lo, parent, scopes))
    }
}

/// The scopes of a Go file.
pub open spec fn scopes_of(t: Syntax, source_len: int) -> Seq<Scope> {
    scopes_with_all(t, 1, t.after(0), 0, seq![module_scope(source_len)])
}

/// The scopes of a Go file. The first is that of the file as a whole.
pub fn collect_scopes(tree: &SyntaxTree, source_len: usize) -> (scopes: Vec<Scope>)
    ensures
        scopes@ == scopes_of(tree@, source_len as int),
        are_file_scopes(scopes@, source_len as int),
        spans_nest(tree@) && span_at(tree@, 0).end <= source_len ==> scopes_nest(scopes@),
{
    let mut scopes: Vec<Scope> = Vec::new();
    push_scope(&mut scopes, None, ByteSpan { start: 0, end: source_len }, ScopeKind::Module);
    assert(scopes@ =~= seq![module_scope(source_len as int)]);
    if tree.len() > 0 {
        scope_all(tree, 0, 0, &mut scopes);
    }
    scopes
}

/// Opens the scopes of the children of node `i` under the scope `parent`.
fn scope_all(tree: &SyntaxTree, i: usize, parent: ScopeId, scopes: &mut Vec<Scope>)
    requires
        i < tree@.len(),
        parent < old(scopes)@.len(),
        is_scope_tree(old(scopes)@),
    ensures
        final(scopes)@ == scopes_with_all(
            tree@,
            i + 1,
            tree@.after(i as int),
            parent,
            old(scopes)@,
        ),
        is_scope_tree(final(scopes)@),
        extends(final(scopes)@, old(scopes)@),
        nests_under(tree@, i as int, parent, old(scopes)@) ==> scopes_nest(final(scopes)@),
    decreases tree@.left(i as int), 0nat,
{
    let hi: usize = tree.after(i);
    let mut lo: usize = i + 1;
    while lo < hi
        invariant
            i < lo,
            i < tree@.len(),
            hi == tree@.after(i as int),
            hi <= tree@.len(),
            parent < old(scopes)@.len(),
            is_scope_tree(scopes@),
            extends(scopes@, old(scopes)@),
            nests_under(tree@, i as int, parent, old(scopes)@) ==> scopes_nest(scopes@),
            scopes_with_all(tree@, lo as int, hi as int, parent, scopes@) == scopes_with_all(
                tree@,
                i + 1,
                hi as int,
                parent,
                old(scopes)@,
            ),
        decreases hi - lo,
    {
        scope_dfs(tree, lo, parent, scopes);
        lo = tree.next(lo, hi);
    }
}

/// Opens the scopes of node `i` under the scope `parent`.
fn scope_dfs(tree: &SyntaxTree, i: usize, parent: ScopeId, scopes: &mut Vec<Scope>)
    requires
        i < tree@.len(),
        parent < old(scopes)@.len(),
        is_scope_tree(old(scopes)@),
    ensures
        final(scopes)@ == scopes_with(tree@, i as int, parent, old(scopes)@),
        is_scope_tree(final(scopes)@),
        extends(final(scopes)@, old(scopes)@),
        nests_under(tree@, i as int, parent, old(scopes)@) ==> scopes_nest(final(scopes)@),
    decreases tree@.left(i as int), 1nat,
{
    if tree.is(i, "function_declaration") || tree.is(i, "method_declaration") || tree.is(
        i,
        "func_literal",
    ) {
        let id: usize = push_scope(scopes, Some(parent), node_span(tree, i), ScopeKind::Function);
        if let Some(body) = tree.child(i, "body") {
            scope_all(tree, body, id, scopes);
        }
    } else if tree.is(i, "block") {
        let id: usize = push_scope(scopes, Some(parent), node_span(tree, i), ScopeKind::Block);
        scope_all(tree, i, id, scopes);
    } else {
        scope_all(tree, i, parent, scopes);
    }
}

// ── Bindings ─────────────────────────────────────────────────────────────────

/// The name of the type that the expression `i` makes a value of, where it is a
/// composite literal.
pub open spec fn composite_type(t: Syntax, i: int) -> Option<Seq<char>> {
    if t.kind(i) == "composite_literal"@ {
        typed_name(t, i)
    } else {
        None
    }
}

/// The name of the type that the expression `i` makes a value of.
fn go_composite_type_name(tree: &SyntaxTree, i: usize) -> (name: Option<String>)
    requires
        i < tree@.len(),
    ensures
        opt_text(name) == composite_type(tree@, i as int),
{
    if tree.is(i, "composite_literal") {
        go_typed_name(tree, i)
    } else {
        None
    }
}

/// The name of the type of the value with the number `k` in the list `values`.
pub open spec fn value_type(t: Syntax, values: Option<int>, k: int) -> Option<Seq<char>> {
    match values {
        Some(list) => match t.nth_named(list + 1, t.after(list), k) {
            Some(value) => composite_type(t, value),
            None => None,
        },
        None => None,
    }
}

/// The name of the type of the value with the number `k` in the list `values`.
fn go_value_type(tree: &SyntaxTree, values: Option<usize>, k: usize) -> (name: Option<String>)
    requires
        values matches Some(list) ==> list < tree@.len(),
    ensures
        opt_text(name) == value_type(tree@, opt_index(values), k as int),
{
    match values {
        Some(list) => match tree.nth_named_child(list, k) {
            Some(value) => go_composite_type_name(tree, value),
            None => None,
        },
        None => None,
    }
}

/// The name that the identifier `i` introduces, unless it is blank or one of the
/// file as a whole.
pub open spec fn local_at(
    t: Syntax,
    scopes: Seq<Scope>,
    declared_type: Option<Seq<char>>,
    i: int,
) -> Seq<BindingView> {
    if t.text(i) == "_"@ || at_file_level(scopes, t.start(i)) {
        Seq::empty()
    } else {
        seq![local_binding(scopes, t.text(i), t.start(i), BindingKind::Local, declared_type)]
    }
}

/// Adds the name that the identifier `i` introduces.
fn push_local(
    tree: &SyntaxTree,
    i: usize,
    scopes: &Vec<Scope>,
    declared_type: Option<String>,
    out: &mut Vec<Binding>,
)
    ensures
        views(final(out)@) == views(old(out)@) + local_at(
            tree@,
            scopes@,
            opt_text(declared_type),
            i as int,
        ),
{
    let name = tree.text(i);
    let intro: usize = tree.start(i);
    if !same(name, "_") && !is_file_level(intro, scopes) {
        push_typed_binding(
            out,
            name.to_owned(),
            intro,
            BindingKind::Local,
            scopes,
            declared_type,
        );
    }
}

/// The names that the identifiers among `lo..hi` on the left of `:=` introduce,
/// with the types of the values in the same places on its right; `k` names stand
/// before them.
pub open spec fn short_locals_in(
    t: Syntax,
    scopes: Seq<Scope>,
    values: Option<int>,
    lo: int,
    hi: int,
    k: int,
) -> Seq<BindingView>
    decreases hi - lo,
{
    if lo >= hi {
        Seq::empty()
    } else if t.kind(lo) == "identifier"@ {
        local_at(t, scopes, value_type(t, values, k), lo) + short_locals_in(
            t,
            scopes,
            values,
            t.next(lo, hi),
            hi,
            k + 1,
        )
    } else {
        short_locals_in(t, scopes, values, t.next(lo, hi), hi, k)
    }
}

/// Adds the names that the identifiers in the list `i` on the left of `:=`
/// introduce.
fn push_short_locals(
    tree: &SyntaxTree,
    i: usize,
    scopes: &Vec<Scope>,
    values: Option<usize>,
    out: &mut Vec<Binding>,
)
    requires
        i < tree@.len(),
        values matches Some(list) ==> list < tree@.len(),
    ensures
        views(final(out)@) == views(old(out)@) + short_locals_in(
            tree@,
            scopes@,
            opt_index(values),
            i + 1,
            tree@.after(i as int),
            0,
        ),
{
    let hi: usize = tree.after(i);
    let mut lo: usize = i + 1;
    let mut k: usize = 0;
    while lo < hi
        invariant
            i < lo,
            hi == tree@.after(i as int),
            hi <= tree@.len(),
            k <= lo,
            values matches Some(list) ==> list < tree@.len(),
            views(out@) + short_locals_in(
                tree@,
                scopes@,
                opt_index(values),
                lo as int,
                hi as int,
                k as int,
            ) == views(old(out)@) + short_locals_in(
                tree@,
                scopes@,
                opt_index(values),
                i + 1,
                hi as int,
                0,
            ),
        decreases hi - lo,
    {
        if tree.is(lo, "identifier") {
            let declared_type = go_value_type(tree, values, k);
            push_local(tree, lo, scopes, declared_type, out);
            k += 1;
        }
        lo = tree.next(lo, hi);
    }
}

/// The names that the identifiers among `lo..hi` on the left of a range introduce.
pub open spec fn ranged_in(t: Syntax, scopes: Seq<Scope>, lo: int, hi: int) -> Seq<BindingView>
    decreases hi - lo,
{
    if lo >= hi {
        Seq::empty()
    } else {
        (if t.kind(lo) == "identifier"@ {
            local_at(t, scopes, None, lo)
        } else {
            Seq::empty()
        }) + ranged_in(t, scopes, t.next(lo, hi), hi)
    }
}

/// Adds the names that the identifiers in the list `i` introduce.
fn push_ranged(tree: &SyntaxTree, i: usize, scopes: &Vec<Scope>, out: &mut Vec<Binding>)
    requires
        i < tree@.len(),
    ensures
        views(final(out)@)
            == views(old(out)@) + ranged_in(tree@, scopes@, i + 1, tree@.after(i as int)),
{
    let hi: usize = tree.after(i);
    let mut lo: usize = i + 1;
    while lo < hi
        invariant
            i < lo,
            i < tree@.len(),
            hi == tree@.after(i as int),
            hi <= tree@.len(),
            views(out@) + ranged_in(tree@, scopes@, lo as int, hi as int) == views(old(out)@)
                + ranged_in(tree@, scopes@, i + 1, hi as int),
        decreases hi - lo,
    {
        if tree.is(lo, "identifier") {
            push_local(tree, lo, scopes, None, out);
        }
        lo = tree.next(lo, hi);
    }
}

/// The names among `lo..hi` that the parameter `param` introduces.
pub open spec fn param_names_in(
    t: Syntax,
    scopes: Seq<Scope>,
    param: int,
    lo: int,
    hi: int,
) -> Seq<BindingView>
    decreases hi - lo,
{
    if lo >= hi {
        Seq::empty()
    } else {
        (if t.kind(lo) == "identifier"@ && t.text(lo) != "_"@ {
            seq![
                local_binding(
                    scopes,
                    t.text(lo),
                    t.start(lo),
                    BindingKind::Param,
                    typed_name(t, param),
                ),
            ]
        } else {
            Seq::empty()
        }) + param_names_in(t, scopes, param, t.next(lo, hi), hi)
    }
}

/// Adds the names under node `i` that the parameter `param` introduces.
fn push_param_names(
    tree: &SyntaxTree,
    i: usize,
    scopes: &Vec<Scope>,
    param: usize,
    out: &mut Vec<Binding>,
)
    requires
        i < tree@.len(),
        param < tree@.len(),
    ensures
        views(final(out)@)
            == views(old(out)@)
                + param_names_in(tree@, scopes@, param as int, i + 1, tree@.after(i as int)),
{
    let hi: usize = tree.after(i);
    let mut lo: usize = i + 1;
    while lo < hi
        invariant
            i < lo,
            i < tree@.len(),
            param < tree@.len(),
            hi == tree@.after(i as int),
            hi <= tree@.len(),
            views(out@) + param_names_in(tree@, scopes@, param as int, lo as int, hi as int)
                == views(old(out)@)
                + param_names_in(tree@, scopes@, param as int, i + 1, hi as int),
        decreases hi - lo,
    {
        if tree.is(lo, "identifier") && !same(tree.text(lo), "_") {
            let declared_type = go_typed_name(tree, param);
            let name = tree.text(lo).to_owned();
            push_typed_binding(
                out,
                name,
                tree.start(lo),
                BindingKind::Param,
                scopes,
                declared_type,
            );
        }
        lo = tree.next(lo, hi);
    }
}

/// The names that the parameters among `lo..hi` introduce.
pub open spec fn params_in(t: Syntax, scopes: Seq<Scope>, lo: int, hi: int) -> Seq<BindingView>
    decreases hi - lo,
{
    if lo >= hi {
        Seq::empty()
    } else {
        (if t.named(lo) && (t.kind(lo) == "parameter_declaration"@ || t.kind(lo)
            == "variadic_parameter_declaration"@) {
            param_names_in(t, scopes, lo, lo + 1, t.after(lo))
        } else {
            Seq::empty()
        }) + params_in(t, scopes, t.next(lo, hi), hi)
    }
}

/// Adds the names that the parameters in the list `i` introduce.
fn collect_params(tree: &SyntaxTree, i: usize, scopes: &Vec<Scope>, out: &mut Vec<Binding>)
    requires
        i < tree@.len(),
    ensures
        views(final(out)@)
            == views(old(out)@) + params_in(tree@, scopes@, i + 1, tree@.after(i as int)),
{
    let hi: usize = tree.after(i);
    let mut lo: usize = i + 1;
    while lo < hi
        invariant
            i < lo,
            i < tree@.len(),
            hi == tree@.after(i as int),
            hi <= tree@.len(),
            views(out@) + params_in(tree@, scopes@, lo as int, hi as int) == views(old(out)@)
                + params_in(tree@, scopes@, i + 1, hi as int),
        decreases hi - lo,
    {
        if tree.named(lo) && (tree.is(lo, "parameter_declaration") || tree.is(
            lo,
            "variadic_parameter_declaration",
        )) {
            push_param_names(tree, lo, scopes, lo, out);
        }
        lo = tree.next(lo, hi);
    }
}

/// The names that the parameters of the function `i` and its receiver introduce.
pub open spec fn function_params(t: Syntax, scopes: Seq<Scope>, i: int) -> Seq<BindingView> {
    (match t.child(i, "parameters"@) {
        Some(params) => params_in(t, scopes, params + 1, t.after(params)),
        None => Seq::empty(),
    }) + match t.child(i, "receiver"@) {
        Some(receiver) => params_in(t, scopes, receiver + 1, t.after(receiver)),
        None => Seq::empty(),
    }
}

/// The names that node `i` itself introduces.
pub open spec fn introduced(t: Syntax, scopes: Seq<Scope>, i: int) -> Seq<BindingView> {
    let kind = t.kind(i);
    if kind == "function_declaration"@ || kind == "method_declaration"@ || kind
        == "func_literal"@ {
        function_params(t, scopes, i)
    } else if kind == "short_var_declaration"@ {
        match t.child(i, "left"@) {
            Some(left) => short_locals_in(
                t,
                scopes,
                t.child(i, "right"@),
                left + 1,
                t.after(left),
                0,
            ),
            None => Seq::empty(),
        }
    } else if kind == "range_clause"@ {
        match t.child(i, "left"@) {
            Some(left) => ranged_in(t, scopes, left + 1, t.after(left)),
            None => Seq::empty(),
        }
    } else {
        Seq::empty()
    }
}

/// Adds the names that node `i` itself introduces.
fn push_introduced(tree: &SyntaxTree, i: usize, scopes: &Vec<Scope>, out: &mut Vec<Binding>)
    requires
        i < tree@.len(),
    ensures
        views(final(out)@) == views(old(out)@) + introduced(tree@, scopes@, i as int),
{
    if tree.is(i, "function_declaration") || tree.is(i, "method_declaration") || tree.is(
        i,
        "func_literal",
    ) {
        if let Some(params) = tree.child(i, "parameters") {
            collect_params(tree, params, scopes, out);
        }
        if let Some(receiver) = tree.child(i, "receiver") {
            collect_params(tree, receiver, scopes, out);
        }
    } else if tree.is(i, "short_var_declaration") {
        if let Some(left) = tree.child(i, "left") {
            let right = tree.child(i, "right");
            push_short_locals(tree, left, scopes, right, out);
        }
    } else if tree.is(i, "range_clause") {
        if let Some(left) = tree.child(i, "left") {
            push_ranged(tree, left, scopes, out);
        }
    }
}

/// The type of the name with the number `k` of the specification `i`: the one
/// that is written, or that of the value in the same place. A constant has none.
pub open spec fn spec_type(t: Syntax, i: int, k: int) -> Option<Seq<char>> {
    if t.kind(i) != "var_spec"@ {
        None
    } else {
        match typed_name(t, i) {
            Some(name) => Some(name),
            None => value_type(t, t.child(i, "value"@), k),
        }
    }
}

/// The type of the name with the number `k` of the specification `i`.
fn go_spec_type(tree: &SyntaxTree, i: usize, k: usize) -> (name: Option<String>)
    requires
        i < tree@.len(),
    ensures
        opt_text(name) == spec_type(tree@, i as int, k as int),
{
    if !tree.is(i, "var_spec") {
        return None;
    }
    match go_typed_name(tree, i) {
        Some(name) => Some(name),
        None => {
            let values = tree.child(i, "value");
            go_value_type(tree, values, k)
        },
    }
}

/// Whether node `i` specifies variables or constants.
pub open spec fn is_spec(t: Syntax, i: int) -> bool {
    t.kind(i) == "var_spec"@ || t.kind(i) == "const_spec"@
}

/// The names that are introduced in the subtree of node `i`.
pub open spec fn bindings_at(t: Syntax, scopes: Seq<Scope>, i: int) -> Seq<BindingView>
    decreases t.left(i), 0nat,
{
    if !t.has(i) {
        Seq::empty()
    } else if is_spec(t, i) {
        spec_parts_in(t, scopes, i, i + 1, t.after(i), 0)
    } else {
        introduced(t, scopes, i) + bindings_in(t, scopes, i + 1, t.after(i))
    }
}

/// The names that are introduced in the parts `lo..hi` of the specification
/// `owner`, where `k` names stand before them.
pub open spec fn spec_parts_in(
    t: Syntax,
    scopes: Seq<Scope>,
    owner: int,
    lo: int,
    hi: int,
    k: int,
) -> Seq<BindingView>
    decreases t.left(lo), 1nat,
{
    if lo >= hi || !t.has(lo) {
        Seq::empty()
    } else if t.kind(lo) == "identifier"@ {
        local_at(t, scopes, spec_type(t, owner, k), lo) + spec_parts_in(
            t,
            scopes,
            owner,
            t.next(lo, hi),
            hi,
            k + 1,
        )
    } else {
        bindings_at(t, scopes, lo) + spec_parts_in(t, scopes, owner, t.next(lo, hi), hi, k)
    }
}

/// The names that are introduced in the subtrees of the nodes among `lo..hi`.
pub open spec fn bindings_in(t: Syntax, scopes: Seq<Scope>, lo: int, hi: int) -> Seq<BindingView>
    decreases t.left(lo), 1nat,
{
    if lo >= hi || !t.has(lo) {
        Seq::empty()
    } else {
        bindings_at(t, scopes, lo) + bindings_in(t, scopes, t.next(lo, hi), hi)
    }
}

/// Adds the names that are introduced in the subtrees of the children of node `i`.
fn collect_bindings_all(tree: &SyntaxTree, i: usize, scopes: &Vec<Scope>, out: &mut Vec<Binding>)
    requires
        i < tree@.len(),
    ensures
        views(final(out)@) == views(old(out)@) + bindings_in(
            tree@, scopes@,
            i + 1,
            tree@.after(i as int),
        ),
    decreases tree@.left(i as int), 0nat,
{
    let hi: usize = tree.after(i);
    let mut lo: usize = i + 1;
    while lo < hi
        invariant
            i < lo,
            i < tree@.len(),
            hi == tree@.after(i as int),
            hi <= tree@.len(),
            views(out@) + bindings_in(tree@, scopes@, lo as int, hi as int) == views(old(out)@)
                + bindings_in(tree@, scopes@, i + 1, hi as int),
        decreases hi - lo,
    {
        collect_bindings_dfs(tree, lo, scopes, out);
        lo = tree.next(lo, hi);
    }
}

/// Adds the names that are introduced in the parts of the specification `i`.
fn collect_spec_parts(tree: &SyntaxTree, i: usize, scopes: &Vec<Scope>, out: &mut Vec<Binding>)
    requires
        i < tree@.len(),
    ensures
        views(final(out)@) == views(old(out)@) + spec_parts_in(
            tree@,
            scopes@,
            i as int,
            i + 1,
            tree@.after(i as int),
            0,
        ),
    decreases tree@.left(i as int), 0nat,
{
    let hi: usize = tree.after(i);
    let mut lo: usize = i + 1;
    let mut k: usize = 0;
    while lo < hi
        invariant
            i < lo,
            i < tree@.len(),
            hi == tree@.after(i as int),
            hi <= tree@.len(),
            k <= lo,
            views(out@) + spec_parts_in(
                tree@,
                scopes@,
                i as int,
                lo as int,
                hi as int,
                k as int,
            ) == views(old(out)@) + spec_parts_in(tree@, scopes@, i as int, i + 1, hi as int, 0),
        decreases hi - lo,
    {
        if tree.is(lo, "identifier") {
            let declared_type = go_spec_type(tree, i, k);
            push_local(tree, lo, scopes, declared_type, out);
            k += 1;
        } else {
            collect_bindings_dfs(tree, lo, scopes, out);
        }
        lo = tree.next(lo, hi);
    }
}

/// Adds the names that are introduced in the subtree of node `i`.
fn collect_bindings_dfs(
    tree: &SyntaxTree,
    i: usize,
    scopes: &Vec<Scope>,
    out: &mut Vec<Binding>,
)
    requires
        i < tree@.len(),
    ensures
        views(final(out)@) == views(old(out)@) + bindings_at(tree@, scopes@, i as int),
    decreases tree@.left(i as int), 1nat,
{
    if tree.is(i, "var_spec") || tree.is(i, "const_spec") {
        collect_spec_parts(tree, i, scopes, out);
    } else {
        push_introduced(tree, i, scopes, out);
        collect_bindings_all(tree, i, scopes, out);
    }
}

/// The names that are introduced in a Go file below the file as a whole.
fn collect_bindings(tree: &SyntaxTree, scopes: &Vec<Scope>) -> (out: Vec<Binding>)
    ensures
        views(out@) == bindings_at(tree@, scopes@, 0),
{
    let mut out: Vec<Binding> = Vec::new();
    proof {
        views_empty::<Binding>();
    }
    if tree.len() > 0 {
        collect_bindings_dfs(tree, 0, scopes, &mut out);
    }
    out
}

// ── Facts ────────────────────────────────────────────────────────────────────

/// The calls: names that are called, with what they are selected from.
pub const CALL_QUERY: &'static str = r#"
(call_expression
  function: [
    (identifier) @callee
    (selector_expression operand: (_) @qualifier field: (field_identifier) @callee)
  ]
)
"#;

/// The references of a Go file, without their scopes.
pub open spec fn references_of(t: Syntax, file: Seq<char>, found: Seq<Seq<CaptureView>>) -> Seq<
    ReferenceView,
> {
    calls(t.source, file, found) + imports_at(t, file, 0) + type_refs_at(t, file, 0) + reads_at(
        t,
        file,
        0,
    ) + writes_at(t, file, 0)
}

/// The facts of a Go file with the nodes `t`, where `found` are the matches of
/// the query on calls.
pub open spec fn facts_of(
    t: Syntax,
    file: Seq<char>,
    found: Seq<Seq<CaptureView>>,
) -> FileFactsView {
    let source_len = byte_count(t.source) as int;
    let ns = namespaces_of(t, file);
    let defs = symbols_in(
        Ctx { tree: t, file, lang: Language::Go },
        namespace_steps(ns),
        package_of(t) == Some("main"@),
        1,
        t.after(0),
    );
    let scopes = scopes_of(t, source_len);
    let references = all_scoped(scopes, references_of(t, file, found));
    FileFactsView {
        file,
        lang: Language::Go.tag(),
        symbols: defs + seq![module_view(Language::Go, ns, file, source_len)],
        references,
        scopes,
        bindings: bindings_at(t, scopes, 0) + definitions_bound(defs) + imports_bound(
            scopes,
            references,
        ),
        ffi_exports: Seq::empty(),
    }
}

/// The facts of a Go file, from its nodes and the matches of the query on calls.
pub fn file_facts(tree: &SyntaxTree, file: &str, found: &Vec<Match>) -> (facts: FileFacts)
    ensures
        facts@ == facts_of(tree@, file@, views(found@)),
        coherent(facts@, byte_count(tree@.source) as int),
        imports_are_bound(facts@),
{
    let source_len: usize = byte_length(tree.source());
    let namespaces = go_namespaces(tree, file);
    let ctx = ExtractCtx { tree, file, lang: Language::Go };
    let is_pkg_main: bool = match go_package_name(tree) {
        Some(name) => same(name.as_str(), "main"),
        None => false,
    };
    let defs = collect_symbols(&ctx, &namespaces, is_pkg_main);
    let def_bindings = definition_bindings(&defs);
    let ghost own = views(defs@);
    let mut symbols = defs;
    put(&mut symbols, module_symbol(Language::Go, namespaces.as_slice(), file, source_len));
    let mut references = collect_call_references(tree.source(), file, found);
    if tree.len() > 0 {
        collect_imports(tree, 0, file, &mut references);
        collect_type_references(tree, 0, file, &mut references);
        collect_read_references(tree, 0, file, &mut references);
        collect_write_references(tree, 0, file, &mut references);
    }
    assert(views(references@) =~= references_of(tree@, file@, views(found@)));
    let scopes = collect_scopes(tree, source_len);
    let ghost plain = views(references@);
    attach_reference_scopes(&mut references, &scopes);
    let mut bindings = collect_bindings(tree, &scopes);
    let ghost locals = views(bindings@);
    put_all(&mut bindings, def_bindings);
    put_all(&mut bindings, import_bindings(&references, &scopes));
    proof {
        views_empty::<FfiExport>();
    }
    let facts = FileFacts {
        file: file.to_owned(),
        lang: Language::Go.as_str().to_owned(),
        symbols,
        references,
        scopes,
        bindings,
        ffi_exports: Vec::new(),
    };
    proof {
        let imports = imports_bound(facts@.scopes, facts@.references);
        facts_are_coherent(facts@, own, plain, locals, imports, source_len as int);
        facts_bind_imports(facts@, locals + definitions_bound(own));
    }
    facts
}

/// Reads Go files.
pub struct GoExtractor;

impl Extractor for GoExtractor {
    open spec fn language(&self) -> Language {
        Language::Go
    }

    open spec fn facts(&self, tree: tree_sitter::Tree, file: Seq<char>) -> Result<
        FileFactsView,
        ErrorView,
    > {
        match answer_to(tree, CALL_QUERY@) {
            None => Err(ErrorView::Query { path: file }),
            Some(found) => Ok(facts_of(syntax_of(tree), file, found)),
        }
    }

    fn lang(&self) -> (lang: Language) {
        Language::Go
    }

    fn extract_facts(&self, source: &str, file: &str) -> (result: Result<
        FileFacts,
        CodegraphError,
    >) {
        match parse(Language::Go, source) {
            None => Err(CodegraphError::Parse { path: file.to_owned() }),
            Some(parsed) => match parsed.query(CALL_QUERY) {
                None => Err(CodegraphError::Query { path: file.to_owned() }),
                Some(found) => Ok(file_facts(parsed.syntax(), file, &found)),
            },
        }
    }
}

} // verus!
