//! The facts of Kotlin files.

use crate::error::{CodegraphError, ErrorView};
use crate::graph::types::{
    Binding, BindingKind, BindingView, ByteSpan, EntryPoint, EntryPointView, FfiExport, FileFacts,
    FileFactsView, RefRole, Reference, ReferenceView, Scope, ScopeId, ScopeKind, Symbol, SymbolKind,
    SymbolView, TypeRefContext, Visibility,
};
use crate::items::{in_order, in_order_none, in_order_split, put, put_all, views, views_empty};
use crate::lang::Language;
use crate::parse::{answer_to, parse, syntax_of, CaptureView, Match};
use crate::symbol::{
    copy_descriptors, method_view, namespace_steps, scip_text, Descriptor, DescriptorView,
};
use crate::syntax::{group_child_bounds, opt_index, Syntax, SyntaxTree};
use crate::text::{
    after_last, after_last_text, before_last, before_last_text, byte_count, byte_length,
    contains_char, ends_with, find_last, has_suffix, has_word, last_index, opt_text, same, segments,
    simple_name, simple_type_name, slice_text, split_segments, strip_prefix, strip_suffix,
    text_between, without_prefix, without_suffix, word_from,
};
use vstd::prelude::*;

use super::{
    add_entry_point, all_scoped, are_file_scopes, attach_reference_scopes, calls_marked, coherent,
    collect_call_references, define, defined_at, definition_bindings, definitions_bound, extends,
    facts_are_coherent, facts_bind_imports, home_scope, import_at, import_bindings,
    imports_are_bound, imports_bound, innermost_scope, inside, is_reportable, is_scope_tree,
    local_binding, mark_self_receiver_calls, module_scope, module_symbol, module_view,
    namespace_descriptors, nests_under, node_span, push_binding, push_import_ref, push_ref,
    push_scope, push_type_ref, push_typed_binding, reference_at, reportable, scopes_nest, span_at,
    spans_nest, type_reference_at, Ctx, ExtractCtx, Extractor,
};

verus! {

broadcast use group_child_bounds;

// ── Namespaces ───────────────────────────────────────────────────────────────

/// The first name among the nodes `lo..hi`: a qualified one or a plain one.
pub open spec fn name_in(t: Syntax, lo: int, hi: int) -> Option<int>
    decreases hi - lo,
{
    if lo >= hi {
        None
    } else if t.kind(lo) == "qualified_identifier"@ || t.kind(lo) == "identifier"@ {
        Some(lo)
    } else {
        name_in(t, t.next(lo, hi), hi)
    }
}

/// The first name among the children of node `i`.
fn find_name(tree: &SyntaxTree, i: usize) -> (name: Option<usize>)
    requires
        i < tree@.len(),
    ensures
        opt_index(name) == name_in(tree@, i + 1, tree@.after(i as int)),
{
    let hi: usize = tree.after(i);
    let mut lo: usize = i + 1;
    while lo < hi
        invariant
            i < lo,
            hi == tree@.after(i as int),
            hi <= tree@.len(),
            name_in(tree@, lo as int, hi as int) == name_in(tree@, i + 1, hi as int),
        decreases hi - lo,
    {
        if tree.is(lo, "qualified_identifier") || tree.is(lo, "identifier") {
            return Some(lo);
        }
        lo = tree.next(lo, hi);
    }
    None
}

/// The name of the first package that one of the nodes `lo..hi` declares.
pub open spec fn declared_package(t: Syntax, lo: int, hi: int) -> Option<Seq<char>>
    decreases hi - lo,
{
    if lo >= hi {
        None
    } else if t.kind(lo) == "package_header"@ && name_in(t, lo + 1, t.after(lo)) is Some {
        Some(t.text(name_in(t, lo + 1, t.after(lo))->0))
    } else {
        declared_package(t, t.next(lo, hi), hi)
    }
}

/// The namespaces of a Kotlin file: the parts of the name of its package. A file
/// without one has the pieces of its path, without `src/` in front and without
/// `.kts` or `.kt` at the end.
pub open spec fn namespaces_of(t: Syntax, file: Seq<char>) -> Seq<Seq<char>> {
    let stem = if has_suffix(file, ".kts"@) {
        without_suffix(file, ".kts"@)
    } else {
        without_suffix(file, ".kt"@)
    };
    match declared_package(t, 1, t.after(0)) {
        Some(name) => segments(name, '.'),
        None => segments(without_prefix(stem, "src/"@), '/'),
    }
}

/// The namespaces of a Kotlin file.
pub fn kotlin_namespaces(tree: &SyntaxTree, file: &str) -> (namespaces: Vec<String>)
    ensures
        views(namespaces@) == namespaces_of(tree@, file@),
{
    if tree.len() > 0 {
        let hi: usize = tree.after(0);
        let mut lo: usize = 1;
        while lo < hi
            invariant
                hi == tree@.after(0),
                hi <= tree@.len(),
                declared_package(tree@, lo as int, hi as int) == declared_package(
                    tree@,
                    1,
                    hi as int,
                ),
            decreases hi - lo,
        {
            if tree.is(lo, "package_header") {
                if let Some(name) = find_name(tree, lo) {
                    return split_segments(tree.text(name), '.');
                }
            }
            lo = tree.next(lo, hi);
        }
    }
    let stem = if ends_with(file, ".kts") {
        strip_suffix(file, ".kts")
    } else {
        strip_suffix(file, ".kt")
    };
    split_segments(strip_prefix(stem, "src/"), '/')
}

// ── Visibility ───────────────────────────────────────────────────────────────

/// Who can see the declaration `i`: what its modifiers say, and else everyone.
pub open spec fn visibility_at(t: Syntax, i: int) -> Visibility {
    match t.child_of_kind(i, "modifiers"@) {
        Some(m) => match t.child_of_kind(m, "visibility_modifier"@) {
            Some(v) => if t.text(v) == "internal"@ {
                Visibility::Internal
            } else if t.text(v) == "protected"@ {
                Visibility::Protected
            } else if t.text(v) == "private"@ {
                Visibility::Private
            } else {
                Visibility::Public
            },
            None => Visibility::Public,
        },
        None => Visibility::Public,
    }
}

/// Who can see the declaration `i`.
fn read_visibility(tree: &SyntaxTree, i: usize) -> (visibility: Visibility)
    requires
        i < tree@.len(),
    ensures
        visibility == visibility_at(tree@, i as int),
{
    if let Some(m) = tree.child_of_kind(i, "modifiers") {
        if let Some(v) = tree.child_of_kind(m, "visibility_modifier") {
            let word = tree.text(v);
            return if same(word, "internal") {
                Visibility::Internal
            } else if same(word, "protected") {
                Visibility::Protected
            } else if same(word, "private") {
                Visibility::Private
            } else {
                Visibility::Public
            };
        }
    }
    Visibility::Public
}

// ── Definitions ──────────────────────────────────────────────────────────────

/// A declaration in a Kotlin file: it is named like the last step of its
/// identity, its signature ends with its line or where its body starts.
pub open spec fn definition(
    c: Ctx,
    prefix: Seq<DescriptorView>,
    i: int,
    leaf: DescriptorView,
    kind: SymbolKind,
) -> SymbolView {
    defined_at(c, prefix, i, leaf.name(), kind, visibility_at(c.tree, i), leaf, "{\n"@)
}

/// A declaration in a Kotlin file.
fn declare(
    ctx: &ExtractCtx<'_>,
    i: usize,
    prefix: &Vec<Descriptor>,
    leaf: Descriptor,
    kind: SymbolKind,
) -> (symbol: Symbol)
    requires
        i < ctx.tree@.len(),
    ensures
        symbol@ == definition(ctx@, views(prefix@), i as int, leaf@, kind),
{
    let name = leaf.name().to_owned();
    let visibility = read_visibility(ctx.tree, i);
    define(ctx, prefix, i, name, kind, visibility, leaf, "{\n")
}

/// Adds a declaration.
fn push_symbol(
    out: &mut Vec<Symbol>,
    ctx: &ExtractCtx<'_>,
    i: usize,
    prefix: &Vec<Descriptor>,
    leaf: Descriptor,
    kind: SymbolKind,
)
    requires
        i < ctx.tree@.len(),
    ensures
        views(final(out)@) == views(old(out)@) + seq![
            definition(ctx@, views(prefix@), i as int, leaf@, kind),
        ],
{
    put(out, declare(ctx, i, prefix, leaf, kind));
}

/// The kind of the type that the class declaration `i` with the name `n`
/// declares: an enum where it has the body of one, an interface where that word
/// stands before the name.
pub open spec fn class_kind(t: Syntax, i: int, n: int) -> SymbolKind {
    if t.child_of_kind(i, "enum_class_body"@) is Some {
        SymbolKind::Enum
    } else if word_from(text_between(t.source, t.start(i), t.start(n)), "interface"@, 0) {
        SymbolKind::Interface
    } else {
        SymbolKind::Class
    }
}

/// The kind of the type that the class declaration `i` with the name `n`
/// declares.
fn read_class_kind(tree: &SyntaxTree, i: usize, n: usize) -> (kind: SymbolKind)
    requires
        i < tree@.len(),
    ensures
        kind == class_kind(tree@, i as int, n as int),
{
    if tree.child_of_kind(i, "enum_class_body").is_some() {
        SymbolKind::Enum
    } else if has_word(slice_text(tree.source(), tree.start(i), tree.start(n)), "interface") {
        SymbolKind::Interface
    } else {
        SymbolKind::Class
    }
}

/// The kind and the name of the type that node `i` declares: a class, an object
/// or a companion, which need not have a name.
pub open spec fn declared_type(t: Syntax, i: int) -> Option<(SymbolKind, Seq<char>)> {
    if t.kind(i) == "class_declaration"@ {
        match t.child(i, "name"@) {
            Some(n) => Some((class_kind(t, i, n), t.text(n))),
            None => None,
        }
    } else if t.kind(i) == "object_declaration"@ {
        match t.field_text(i, "name"@) {
            Some(name) => Some((SymbolKind::Class, name)),
            None => None,
        }
    } else if t.kind(i) == "companion_object"@ {
        match t.field_text(i, "name"@) {
            Some(name) => Some((SymbolKind::Class, name)),
            None => Some((SymbolKind::Class, "Companion"@)),
        }
    } else {
        None
    }
}

/// A kind and a name, by their contents.
pub open spec fn opt_kind_name(found: Option<(SymbolKind, String)>) -> Option<
    (SymbolKind, Seq<char>),
> {
    match found {
        Some(pair) => Some((pair.0, pair.1@)),
        None => None,
    }
}

/// The kind and the name of the type that node `i` declares.
fn read_declared_type(tree: &SyntaxTree, i: usize) -> (found: Option<(SymbolKind, String)>)
    requires
        i < tree@.len(),
    ensures
        opt_kind_name(found) == declared_type(tree@, i as int),
{
    if tree.is(i, "class_declaration") {
        match tree.child(i, "name") {
            Some(n) => Some((read_class_kind(tree, i, n), tree.text(n).to_owned())),
            None => None,
        }
    } else if tree.is(i, "object_declaration") {
        match tree.field_text(i, "name") {
            Some(name) => Some((SymbolKind::Class, name)),
            None => None,
        }
    } else if tree.is(i, "companion_object") {
        match tree.field_text(i, "name") {
            Some(name) => Some((SymbolKind::Class, name)),
            None => Some((SymbolKind::Class, "Companion".to_owned())),
        }
    } else {
        None
    }
}

/// The function that node `i` declares: a method in a type. One named `main`
/// outside of types is where the program starts.
pub open spec fn function_symbols(c: Ctx, prefix: Seq<DescriptorView>, inside: bool, i: int) -> Seq<
    SymbolView,
> {
    match c.tree.field_text(i, "name"@) {
        Some(name) => {
            let kind = if inside {
                SymbolKind::Method
            } else {
                SymbolKind::Function
            };
            seq![
                SymbolView {
                    entry_points: if !inside && name == "main"@ {
                        seq![EntryPointView::Main]
                    } else {
                        Seq::empty()
                    },
                    ..definition(c, prefix, i, method_view(name), kind)
                },
            ]
        },
        None => Seq::empty(),
    }
}

/// Adds the function that node `i` declares.
fn handle_function(
    ctx: &ExtractCtx<'_>,
    i: usize,
    prefix: &Vec<Descriptor>,
    inside: bool,
    out: &mut Vec<Symbol>,
)
    requires
        i < ctx.tree@.len(),
    ensures
        views(final(out)@) == views(old(out)@) + function_symbols(
            ctx@,
            views(prefix@),
            inside,
            i as int,
        ),
{
    if let Some(name) = ctx.tree.field_text(i, "name") {
        let kind = if inside {
            SymbolKind::Method
        } else {
            SymbolKind::Function
        };
        let is_main: bool = !inside && same(name.as_str(), "main");
        let mut symbol = declare(ctx, i, prefix, Descriptor::method(name), kind);
        if is_main {
            add_entry_point(&mut symbol, EntryPoint::Main);
            assert(symbol@.entry_points =~= seq![EntryPointView::Main]);
        }
        put(out, symbol);
    }
}

/// The first declaration of one or of many variables among the nodes `lo..hi`.
pub open spec fn variables_in(t: Syntax, lo: int, hi: int) -> Option<int>
    decreases hi - lo,
{
    if lo >= hi {
        None
    } else if t.kind(lo) == "variable_declaration"@ || t.kind(lo)
        == "multi_variable_declaration"@ {
        Some(lo)
    } else {
        variables_in(t, t.next(lo, hi), hi)
    }
}

/// The first declaration of one or of many variables among the children of node
/// `i`.
fn find_variables(tree: &SyntaxTree, i: usize) -> (found: Option<usize>)
    requires
        i < tree@.len(),
    ensures
        opt_index(found) == variables_in(tree@, i + 1, tree@.after(i as int)),
        found matches Some(f) ==> f < tree@.len(),
{
    let hi: usize = tree.after(i);
    let mut lo: usize = i + 1;
    while lo < hi
        invariant
            i < lo,
            hi == tree@.after(i as int),
            hi <= tree@.len(),
            variables_in(tree@, lo as int, hi as int) == variables_in(tree@, i + 1, hi as int),
        decreases hi - lo,
    {
        if tree.is(lo, "variable_declaration") || tree.is(lo, "multi_variable_declaration") {
            return Some(lo);
        }
        lo = tree.next(lo, hi);
    }
    None
}

/// The property that node `i` declares: `var` makes it one that changes. One that
/// takes a value apart is not reported.
pub open spec fn property_symbols(c: Ctx, prefix: Seq<DescriptorView>, i: int) -> Seq<SymbolView> {
    let t = c.tree;
    let kind = if t.child_of_kind(i, "var"@) is Some {
        SymbolKind::Static
    } else {
        SymbolKind::Const
    };
    match variables_in(t, i + 1, t.after(i)) {
        Some(v) => match t.child_of_kind(v, "identifier"@) {
            Some(n) => if t.kind(v) == "variable_declaration"@ {
                seq![definition(c, prefix, i, DescriptorView::Term(t.text(n)), kind)]
            } else {
                Seq::empty()
            },
            None => Seq::empty(),
        },
        None => Seq::empty(),
    }
}

/// Adds the property that node `i` declares.
fn handle_property(
    ctx: &ExtractCtx<'_>,
    i: usize,
    prefix: &Vec<Descriptor>,
    out: &mut Vec<Symbol>,
)
    requires
        i < ctx.tree@.len(),
    ensures
        views(final(out)@) == views(old(out)@) + property_symbols(ctx@, views(prefix@), i as int),
{
    let tree = ctx.tree;
    if let Some(v) = find_variables(tree, i) {
        if tree.is(v, "variable_declaration") {
            if let Some(n) = tree.child_of_kind(v, "identifier") {
                let kind = if tree.child_of_kind(i, "var").is_some() {
                    SymbolKind::Static
                } else {
                    SymbolKind::Const
                };
                let leaf = Descriptor::Term(tree.text(n).to_owned());
                push_symbol(out, ctx, i, prefix, leaf, kind);
            }
        }
    }
}

/// The alias that node `i` introduces.
pub open spec fn alias_symbols(c: Ctx, prefix: Seq<DescriptorView>, i: int) -> Seq<SymbolView> {
    match c.tree.field_text(i, "type"@) {
        Some(name) => seq![
            definition(c, prefix, i, DescriptorView::Type(name), SymbolKind::TypeAlias),
        ],
        None => Seq::empty(),
    }
}

/// Adds the alias that node `i` introduces.
fn handle_typealias(
    ctx: &ExtractCtx<'_>,
    i: usize,
    prefix: &Vec<Descriptor>,
    out: &mut Vec<Symbol>,
)
    requires
        i < ctx.tree@.len(),
    ensures
        views(final(out)@) == views(old(out)@) + alias_symbols(ctx@, views(prefix@), i as int),
{
    if let Some(name) = ctx.tree.field_text(i, "type") {
        push_symbol(out, ctx, i, prefix, Descriptor::Type(name), SymbolKind::TypeAlias);
    }
}

/// The entry of an enum that node `i` declares.
pub open spec fn entry_symbols(c: Ctx, prefix: Seq<DescriptorView>, i: int) -> Seq<SymbolView> {
    match c.tree.child_of_kind(i, "identifier"@) {
        Some(n) => seq![
            definition(c, prefix, i, DescriptorView::Term(c.tree.text(n)), SymbolKind::Const),
        ],
        None => Seq::empty(),
    }
}

/// Adds the entry of an enum that node `i` declares.
fn handle_enum_entry(
    ctx: &ExtractCtx<'_>,
    i: usize,
    prefix: &Vec<Descriptor>,
    out: &mut Vec<Symbol>,
)
    requires
        i < ctx.tree@.len(),
    ensures
        views(final(out)@) == views(old(out)@) + entry_symbols(ctx@, views(prefix@), i as int),
{
    if let Some(n) = ctx.tree.child_of_kind(i, "identifier") {
        let leaf = Descriptor::Term(ctx.tree.text(n).to_owned());
        push_symbol(out, ctx, i, prefix, leaf, SymbolKind::Const);
    }
}

/// The constructor that node `i` declares.
pub open spec fn constructor_symbols(c: Ctx, prefix: Seq<DescriptorView>, i: int) -> Seq<
    SymbolView,
> {
    seq![definition(c, prefix, i, method_view("constructor"@), SymbolKind::Method)]
}

/// Adds the constructor that node `i` declares.
fn handle_secondary_constructor(
    ctx: &ExtractCtx<'_>,
    i: usize,
    prefix: &Vec<Descriptor>,
    out: &mut Vec<Symbol>,
)
    requires
        i < ctx.tree@.len(),
    ensures
        views(final(out)@) == views(old(out)@) + constructor_symbols(
            ctx@,
            views(prefix@),
            i as int,
        ),
{
    let leaf = Descriptor::method("constructor".to_owned());
    push_symbol(out, ctx, i, prefix, leaf, SymbolKind::Method);
}

/// Whether node `i` is the body of a type.
pub open spec fn is_type_body(t: Syntax, i: int) -> bool {
    t.kind(i) == "class_body"@ || t.kind(i) == "enum_class_body"@
}

/// What node `i` declares outside or inside of a type: a type with its members,
/// a function, a property, an alias, an entry of an enum or a constructor.
pub open spec fn decls_at(c: Ctx, prefix: Seq<DescriptorView>, inside: bool, i: int) -> Seq<
    SymbolView,
>
    decreases c.tree.left(i), 1nat,
{
    let t = c.tree;
    let kind = t.kind(i);
    if !t.has(i) {
        Seq::empty()
    } else if kind == "class_declaration"@ || kind == "object_declaration"@ || kind
        == "companion_object"@ {
        match declared_type(t, i) {
            Some((type_kind, name)) => {
                let leaf = DescriptorView::Type(name);
                seq![definition(c, prefix, i, leaf, type_kind)] + bodies_in(
                    c,
                    prefix + seq![leaf],
                    i + 1,
                    t.after(i),
                )
            },
            None => Seq::empty(),
        }
    } else if kind == "function_declaration"@ {
        function_symbols(c, prefix, inside, i)
    } else if kind == "property_declaration"@ {
        property_symbols(c, prefix, i)
    } else if kind == "type_alias"@ {
        alias_symbols(c, prefix, i)
    } else if kind == "enum_entry"@ {
        entry_symbols(c, prefix, i)
    } else if kind == "secondary_constructor"@ {
        constructor_symbols(c, prefix, i)
    } else {
        Seq::empty()
    }
}

/// What the bodies among the parts `lo..hi` of a type declare.
pub open spec fn bodies_in(c: Ctx, prefix: Seq<DescriptorView>, lo: int, hi: int) -> Seq<SymbolView>
    decreases c.tree.left(lo), 0nat,
{
    if lo >= hi || !c.tree.has(lo) {
        Seq::empty()
    } else {
        (if is_type_body(c.tree, lo) {
            decls_in(c, prefix, true, lo + 1, c.tree.after(lo))
        } else {
            Seq::empty()
        }) + bodies_in(c, prefix, c.tree.next(lo, hi), hi)
    }
}

/// What the nodes `lo..hi` declare outside or inside of a type.
pub open spec fn decls_in(
    c: Ctx,
    prefix: Seq<DescriptorView>,
    inside: bool,
    lo: int,
    hi: int,
) -> Seq<SymbolView>
    decreases c.tree.left(lo), 2nat,
{
    if lo >= hi || !c.tree.has(lo) {
        Seq::empty()
    } else {
        decls_at(c, prefix, inside, lo) + decls_in(
            c,
            prefix,
            inside,
            c.tree.next(lo, hi),
            hi,
        )
    }
}

/// Adds what the children of node `i` declare, a file or the body of a type.
fn collect_decls(
    ctx: &ExtractCtx<'_>,
    i: usize,
    prefix: &Vec<Descriptor>,
    inside: bool,
    out: &mut Vec<Symbol>,
)
    requires
        i < ctx.tree@.len(),
    ensures
        views(final(out)@) == views(old(out)@) + decls_in(
            ctx@,
            views(prefix@),
            inside,
            i + 1,
            ctx.tree@.after(i as int),
        ),
    decreases ctx.tree@.left(i as int), 0nat,
{
    let tree = ctx.tree;
    let hi: usize = tree.after(i);
    let mut lo: usize = i + 1;
    while lo < hi
        invariant
            i < lo,
            i < tree@.len(),
            tree == ctx.tree,
            hi == tree@.after(i as int),
            hi <= tree@.len(),
            views(out@) + decls_in(ctx@, views(prefix@), inside, lo as int, hi as int) == views(
                old(out)@,
            ) + decls_in(ctx@, views(prefix@), inside, i + 1, hi as int),
        decreases hi - lo,
    {
        handle_decl(ctx, lo, prefix, inside, out);
        lo = tree.next(lo, hi);
    }
}

/// Adds what node `i` declares outside or inside of a type.
fn handle_decl(
    ctx: &ExtractCtx<'_>,
    i: usize,
    prefix: &Vec<Descriptor>,
    inside: bool,
    out: &mut Vec<Symbol>,
)
    requires
        i < ctx.tree@.len(),
    ensures
        views(final(out)@) == views(old(out)@) + decls_at(
            ctx@,
            views(prefix@),
            inside,
            i as int,
        ),
    decreases ctx.tree@.left(i as int), 2nat,
{
    let tree = ctx.tree;
    if tree.is(i, "class_declaration") || tree.is(i, "object_declaration") || tree.is(
        i,
        "companion_object",
    ) {
        if let Some((kind, name)) = read_declared_type(tree, i) {
            emit_type_and_body(ctx, i, prefix, name, kind, out);
        }
    } else if tree.is(i, "function_declaration") {
        handle_function(ctx, i, prefix, inside, out);
    } else if tree.is(i, "property_declaration") {
        handle_property(ctx, i, prefix, out);
    } else if tree.is(i, "type_alias") {
        handle_typealias(ctx, i, prefix, out);
    } else if tree.is(i, "enum_entry") {
        handle_enum_entry(ctx, i, prefix, out);
    } else if tree.is(i, "secondary_constructor") {
        handle_secondary_constructor(ctx, i, prefix, out);
    }
}

/// Adds the type `name` that node `i` declares, with its members.
fn emit_type_and_body(
    ctx: &ExtractCtx<'_>,
    i: usize,
    prefix: &Vec<Descriptor>,
    name: String,
    kind: SymbolKind,
    out: &mut Vec<Symbol>,
)
    requires
        i < ctx.tree@.len(),
    ensures
        views(final(out)@) == views(old(out)@) + (seq![
            definition(ctx@, views(prefix@), i as int, DescriptorView::Type(name@), kind),
        ] + bodies_in(
            ctx@,
            views(prefix@) + seq![DescriptorView::Type(name@)],
            i + 1,
            ctx.tree@.after(i as int),
        )),
    decreases ctx.tree@.left(i as int), 1nat,
{
    let tree = ctx.tree;
    let ghost leaf = DescriptorView::Type(name@);
    let mut inner = copy_descriptors(prefix);
    put(&mut inner, Descriptor::Type(name.as_str().to_owned()));
    push_symbol(out, ctx, i, prefix, Descriptor::Type(name), kind);
    let ghost before = views(out@);
    let hi: usize = tree.after(i);
    let mut lo: usize = i + 1;
    while lo < hi
        invariant
            i < lo,
            i < tree@.len(),
            tree == ctx.tree,
            hi == tree@.after(i as int),
            hi <= tree@.len(),
            views(inner@) == views(prefix@) + seq![leaf],
            views(out@) + bodies_in(ctx@, views(inner@), lo as int, hi as int) == before
                + bodies_in(ctx@, views(inner@), i + 1, hi as int),
        decreases hi - lo,
    {
        if tree.is(lo, "class_body") || tree.is(lo, "enum_class_body") {
            collect_decls(ctx, lo, &inner, true, out);
        }
        lo = tree.next(lo, hi);
    }
}

/// What a Kotlin file declares.
fn collect_symbols(ctx: &ExtractCtx<'_>, namespaces: &Vec<String>) -> (out: Vec<Symbol>)
    ensures
        views(out@) == decls_in(
            ctx@,
            namespace_steps(views(namespaces@)),
            false,
            1,
            ctx.tree@.after(0),
        ),
{
    let prefix = namespace_descriptors(namespaces);
    let mut out: Vec<Symbol> = Vec::new();
    proof {
        views_empty::<Symbol>();
    }
    if ctx.tree.len() > 0 {
        collect_decls(ctx, 0, &prefix, false, &mut out);
    }
    out
}

// ── Reads and writes ─────────────────────────────────────────────────────────

/// The last named identifier among the nodes `lo..hi`; `found` where there is
/// none.
pub open spec fn last_identifier_in(t: Syntax, lo: int, hi: int, found: Option<int>) -> Option<int>
    decreases hi - lo,
{
    if lo >= hi {
        found
    } else {
        last_identifier_in(
            t,
            t.next(lo, hi),
            hi,
            if t.named(lo) && t.kind(lo) == "identifier"@ {
                Some(lo)
            } else {
                found
            },
        )
    }
}

/// Whether node `n` is the last named identifier among the children of node `i`.
fn is_last_identifier(tree: &SyntaxTree, i: usize, n: usize) -> (b: bool)
    requires
        i < tree@.len(),
    ensures
        b == (last_identifier_in(tree@, i + 1, tree@.after(i as int), None) == Some(n as int)),
{
    let mut last: Option<usize> = None;
    let hi: usize = tree.after(i);
    let mut lo: usize = i + 1;
    while lo < hi
        invariant
            i < lo,
            hi == tree@.after(i as int),
            hi <= tree@.len(),
            last_identifier_in(tree@, lo as int, hi as int, opt_index(last)) == last_identifier_in(
                tree@,
                i + 1,
                hi as int,
                None,
            ),
        decreases hi - lo,
    {
        if tree.named(lo) && tree.is(lo, "identifier") {
            last = Some(lo);
        }
        lo = tree.next(lo, hi);
    }
    match last {
        Some(l) => l == n,
        None => false,
    }
}

/// Whether the identifier `i` stands where it is not read: where it is called,
/// introduced, imported, assigned to, names a member, or is part of a type.
pub open spec fn not_read(t: Syntax, i: int) -> bool {
    match t.parent(i) {
        None => true,
        Some(p) => {
            let kind = t.kind(p);
            if kind == "call_expression"@ {
                t.named_child(p) == Some(i)
            } else if kind == "navigation_expression"@ {
                last_identifier_in(t, p + 1, t.after(p), None) == Some(i)
            } else if kind == "function_declaration"@ || kind == "class_declaration"@ || kind
                == "object_declaration"@ || kind == "companion_object"@ {
                t.child(p, "name"@) == Some(i)
            } else if kind == "type_alias"@ {
                t.child(p, "type"@) == Some(i)
            } else if kind == "variable_declaration"@ || kind == "parameter"@ || kind
                == "class_parameter"@ {
                t.named_child_of_kind(p, "identifier"@) == Some(i)
            } else if kind == "assignment"@ {
                t.child(p, "left"@) == Some(i)
            } else {
                kind == "import"@ || kind == "qualified_identifier"@ || kind == "package_header"@
                    || kind == "user_type"@ || kind == "type_identifier"@
            }
        },
    }
}

/// Whether the identifier `i` stands where it is not read.
fn is_non_read_position(tree: &SyntaxTree, i: usize) -> (b: bool)
    ensures
        b == not_read(tree@, i as int),
{
    match tree.parent(i) {
        None => true,
        Some(p) => {
            if tree.is(p, "call_expression") {
                match tree.named_child(p) {
                    Some(n) => n == i,
                    None => false,
                }
            } else if tree.is(p, "navigation_expression") {
                is_last_identifier(tree, p, i)
            } else if tree.is(p, "function_declaration") || tree.is(p, "class_declaration")
                || tree.is(p, "object_declaration") || tree.is(p, "companion_object") {
                tree.is_child(p, "name", i)
            } else if tree.is(p, "type_alias") {
                tree.is_child(p, "type", i)
            } else if tree.is(p, "variable_declaration") || tree.is(p, "parameter") || tree.is(
                p,
                "class_parameter",
            ) {
                match tree.named_child_of_kind(p, "identifier") {
                    Some(n) => n == i,
                    None => false,
                }
            } else if tree.is(p, "assignment") {
                tree.is_child(p, "left", i)
            } else {
                tree.is(p, "import") || tree.is(p, "qualified_identifier") || tree.is(
                    p,
                    "package_header",
                ) || tree.is(p, "user_type") || tree.is(p, "type_identifier")
            }
        },
    }
}

/// The read that the identifier `i` is, where it is long enough and stands where
/// it is read.
pub open spec fn read_of(t: Syntax, file: Seq<char>, i: int) -> Seq<ReferenceView> {
    if (t.kind(i) == "identifier"@) && reportable(t.text(i)) && !not_read(t, i) {
        seq![reference_at(t, file, i, t.text(i), RefRole::Read)]
    } else {
        Seq::empty()
    }
}

/// The reads in the subtree of node `i`.
pub open spec fn reads_at(t: Syntax, file: Seq<char>, i: int) -> Seq<ReferenceView>
    decreases t.left(i), 0nat,
{
    if !t.has(i) {
        Seq::empty()
    } else if t.kind(i) == "identifier"@ {
        read_of(t, file, i)
    } else {
        read_of(t, file, i) + reads_in(t, file, i + 1, t.after(i))
    }
}

/// The reads in the subtrees of the nodes `lo..hi`.
pub open spec fn reads_in(t: Syntax, file: Seq<char>, lo: int, hi: int) -> Seq<ReferenceView>
    decreases t.left(lo), 1nat,
{
    if lo >= hi || !t.has(lo) {
        Seq::empty()
    } else {
        reads_at(t, file, lo) + reads_in(t, file, t.next(lo, hi), hi)
    }
}

/// Adds the reads in the subtree of node `i`.
fn collect_read_references(tree: &SyntaxTree, i: usize, file: &str, out: &mut Vec<Reference>)
    requires
        i < tree@.len(),
    ensures
        views(final(out)@) == views(old(out)@) + reads_at(tree@, file@, i as int),
    decreases tree@.left(i as int),
{
    if tree.is(i, "identifier") {
        let name = tree.text(i);
        if is_reportable(name) && !is_non_read_position(tree, i) {
            push_ref(out, tree, file, i, name, RefRole::Read);
        }
    }
    if tree.is(i, "identifier") {
        return ;
    }
    let hi: usize = tree.after(i);
    let mut lo: usize = i + 1;
    while lo < hi
        invariant
            i < lo,
            i < tree@.len(),
            hi == tree@.after(i as int),
            hi <= tree@.len(),
            views(out@) + reads_in(tree@, file@, lo as int, hi as int) == views(old(out)@)
                + reads_at(tree@, file@, i as int),
        decreases hi - lo,
    {
        collect_read_references(tree, lo, file, out);
        lo = tree.next(lo, hi);
    }
}

/// The reads of node `i` itself, for each `i`.
pub open spec fn reads_of_nodes(t: Syntax, file: Seq<char>) -> spec_fn(int) -> Seq<ReferenceView> {
    |j: int| read_of(t, file, j)
}

/// The reads in a subtree are those of its nodes, in document order: none is missed
/// and none is reported twice.
pub proof fn reads_in_document_order(t: Syntax, file: Seq<char>, i: int)
    requires
        t.nested(),
        t.has(i),
        forall|j: int, k: int|
            t.has(j) && t.kind(j) == "identifier"@ && j < k < #[trigger] t.after(j)
                ==> #[trigger] t.kind(k) != "identifier"@,
    ensures
        reads_at(t, file, i) == in_order(reads_of_nodes(t, file), i, t.after(i)),
    decreases t.left(i), 0nat,
{
    let items = reads_of_nodes(t, file);
    if t.kind(i) == "identifier"@ {
        in_order_none(items, i + 1, t.after(i));
    } else {
        reads_of_siblings(t, file, i + 1, t.after(i));
    }
    assert(in_order(items, i, t.after(i)) == items(i) + in_order(items, i + 1, t.after(i)));
    assert(Seq::<ReferenceView>::empty() + items(i) =~= items(i) + Seq::<ReferenceView>::empty());
}

proof fn reads_of_siblings(t: Syntax, file: Seq<char>, lo: int, hi: int)
    requires
        t.nested(),
        t.closed_range(lo, hi),
        forall|j: int, k: int|
            t.has(j) && t.kind(j) == "identifier"@ && j < k < #[trigger] t.after(j)
                ==> #[trigger] t.kind(k) != "identifier"@,
    ensures
        reads_in(t, file, lo, hi) == in_order(reads_of_nodes(t, file), lo, hi),
    decreases t.left(lo), 1nat,
{
    if lo < hi {
        let items = reads_of_nodes(t, file);
        reads_in_document_order(t, file, lo);
        reads_of_siblings(t, file, t.after(lo), hi);
        in_order_split(items, lo, t.after(lo), hi);
    }
}

/// The write of the assignment `i` to an identifier that is long enough.
pub open spec fn write_of(t: Syntax, file: Seq<char>, i: int) -> Seq<ReferenceView> {
    match t.child(i, "left"@) {
        Some(lhs) => if t.kind(i) == "assignment"@ && t.kind(lhs) == "identifier"@
            && reportable(t.text(lhs)) {
            seq![reference_at(t, file, lhs, t.text(lhs), RefRole::Write)]
        } else {
            Seq::empty()
        },
        None => Seq::empty(),
    }
}

/// The writes in the subtree of node `i`.
pub open spec fn writes_at(t: Syntax, file: Seq<char>, i: int) -> Seq<ReferenceView>
    decreases t.left(i), 0nat,
{
    if !t.has(i) {
        Seq::empty()
    } else {
        write_of(t, file, i) + writes_in(t, file, i + 1, t.after(i))
    }
}

/// The writes in the subtrees of the nodes `lo..hi`.
pub open spec fn writes_in(t: Syntax, file: Seq<char>, lo: int, hi: int) -> Seq<ReferenceView>
    decreases t.left(lo), 1nat,
{
    if lo >= hi || !t.has(lo) {
        Seq::empty()
    } else {
        writes_at(t, file, lo) + writes_in(t, file, t.next(lo, hi), hi)
    }
}

/// Adds the writes in the subtree of node `i`.
fn collect_write_references(tree: &SyntaxTree, i: usize, file: &str, out: &mut Vec<Reference>)
    requires
        i < tree@.len(),
    ensures
        views(final(out)@) == views(old(out)@) + writes_at(tree@, file@, i as int),
    decreases tree@.left(i as int),
{
    if tree.is(i, "assignment") {
        if let Some(lhs) = tree.child(i, "left") {
            let name = tree.text(lhs);
            if tree.is(lhs, "identifier") && is_reportable(name) {
                push_ref(out, tree, file, lhs, name, RefRole::Write);
            }
        }
    }
    let hi: usize = tree.after(i);
    let mut lo: usize = i + 1;
    while lo < hi
        invariant
            i < lo,
            i < tree@.len(),
            hi == tree@.after(i as int),
            hi <= tree@.len(),
            views(out@) + writes_in(tree@, file@, lo as int, hi as int) == views(old(out)@)
                + writes_at(tree@, file@, i as int),
        decreases hi - lo,
    {
        collect_write_references(tree, lo, file, out);
        lo = tree.next(lo, hi);
    }
}

/// The writes of node `i` itself, for each `i`.
pub open spec fn writes_of_nodes(t: Syntax, file: Seq<char>) -> spec_fn(int) -> Seq<ReferenceView> {
    |j: int| write_of(t, file, j)
}

/// The writes in a subtree are those of its nodes, in document order: none is missed
/// and none is reported twice.
pub proof fn writes_in_document_order(t: Syntax, file: Seq<char>, i: int)
    requires
        t.nested(),
        t.has(i),
    ensures
        writes_at(t, file, i) == in_order(writes_of_nodes(t, file), i, t.after(i)),
    decreases t.left(i), 0nat,
{
    let items = writes_of_nodes(t, file);
    writes_of_siblings(t, file, i + 1, t.after(i));
    assert(in_order(items, i, t.after(i)) == items(i) + in_order(items, i + 1, t.after(i)));
    assert(Seq::<ReferenceView>::empty() + items(i) =~= items(i) + Seq::<ReferenceView>::empty());
}

proof fn writes_of_siblings(t: Syntax, file: Seq<char>, lo: int, hi: int)
    requires
        t.nested(),
        t.closed_range(lo, hi),
    ensures
        writes_in(t, file, lo, hi) == in_order(writes_of_nodes(t, file), lo, hi),
    decreases t.left(lo), 1nat,
{
    if lo < hi {
        let items = writes_of_nodes(t, file);
        writes_in_document_order(t, file, lo);
        writes_of_siblings(t, file, t.after(lo), hi);
        in_order_split(items, lo, t.after(lo), hi);
    }
}

// ── Type references ──────────────────────────────────────────────────────────

/// The references to types in the parts `lo..hi` of a simple type: its name, and
/// its arguments.
pub open spec fn simple_parts_in(
    t: Syntax,
    file: Seq<char>,
    ctx: TypeRefContext,
    lo: int,
    hi: int,
) -> Seq<ReferenceView>
    decreases t.left(lo), 1nat,
{
    if lo >= hi || !t.has(lo) {
        Seq::empty()
    } else {
        (if !t.named(lo) {
            Seq::empty()
        } else if t.kind(lo) == "type_identifier"@ {
            seq![type_reference_at(t, file, lo, t.text(lo), ctx)]
        } else if t.kind(lo) == "type_arguments"@ {
            leaves_at(t, file, TypeRefContext::GenericArg, lo)
        } else {
            Seq::empty()
        }) + simple_parts_in(t, file, ctx, t.next(lo, hi), hi)
    }
}

/// The references to types in the parts `lo..hi` of a type: its name, and its
/// arguments.
pub open spec fn user_parts_in(
    t: Syntax,
    file: Seq<char>,
    ctx: TypeRefContext,
    lo: int,
    hi: int,
) -> Seq<ReferenceView>
    decreases t.left(lo), 1nat,
{
    if lo >= hi || !t.has(lo) {
        Seq::empty()
    } else {
        (if !t.named(lo) {
            Seq::empty()
        } else if t.kind(lo) == "simple_user_type"@ {
            simple_parts_in(t, file, ctx, lo + 1, t.after(lo))
        } else if t.kind(lo) == "type_identifier"@ || t.kind(lo) == "identifier"@ {
            seq![type_reference_at(t, file, lo, t.text(lo), ctx)]
        } else if t.kind(lo) == "type_arguments"@ {
            leaves_at(t, file, TypeRefContext::GenericArg, lo)
        } else {
            Seq::empty()
        }) + user_parts_in(t, file, ctx, t.next(lo, hi), hi)
    }
}

/// The references to types in the type `i`, which stands in the place `ctx`.
pub open spec fn leaves_at(t: Syntax, file: Seq<char>, ctx: TypeRefContext, i: int) -> Seq<
    ReferenceView,
>
    decreases t.left(i), 0nat,
{
    let kind = t.kind(i);
    if !t.has(i) {
        Seq::empty()
    } else if kind == "type_identifier"@ {
        seq![type_reference_at(t, file, i, t.text(i), ctx)]
    } else if kind == "user_type"@ {
        user_parts_in(t, file, ctx, i + 1, t.after(i))
    } else if kind == "type_arguments"@ {
        leaves_in(t, file, TypeRefContext::GenericArg, i + 1, t.after(i))
    } else {
        leaves_in(t, file, ctx, i + 1, t.after(i))
    }
}

/// The references to types of the named nodes among `lo..hi`.
pub open spec fn leaves_in(
    t: Syntax,
    file: Seq<char>,
    ctx: TypeRefContext,
    lo: int,
    hi: int,
) -> Seq<ReferenceView>
    decreases t.left(lo), 1nat,
{
    if lo >= hi || !t.has(lo) {
        Seq::empty()
    } else {
        (if t.named(lo) {
            leaves_at(t, file, ctx, lo)
        } else {
            Seq::empty()
        }) + leaves_in(t, file, ctx, t.next(lo, hi), hi)
    }
}

/// Adds the references to types of the named children of node `i`.
fn type_leaves(
    tree: &SyntaxTree,
    i: usize,
    file: &str,
    ctx: TypeRefContext,
    out: &mut Vec<Reference>,
)
    requires
        i < tree@.len(),
    ensures
        views(final(out)@) == views(old(out)@) + leaves_in(
            tree@, file@, ctx,
            i + 1,
            tree@.after(i as int),
        ),
    decreases tree@.left(i as int), 0nat,
{
    let hi: usize = tree.after(i);
    let mut lo: usize = i + 1;
    while lo < hi
        invariant
            i < lo,
            i < tree@.len(),
            hi == tree@.after(i as int),
            hi <= tree@.len(),
            views(out@) + leaves_in(tree@, file@, ctx, lo as int, hi as int) == views(old(out)@)
                + leaves_in(tree@, file@, ctx, i + 1, hi as int),
        decreases hi - lo,
    {
        if tree.named(lo) {
            type_leaf(tree, lo, file, ctx, out);
        }
        lo = tree.next(lo, hi);
    }
}

/// Adds the references to types in the parts of the simple type `i`.
fn push_simple_parts(
    tree: &SyntaxTree,
    i: usize,
    file: &str,
    ctx: TypeRefContext,
    out: &mut Vec<Reference>,
)
    requires
        i < tree@.len(),
    ensures
        views(final(out)@) == views(old(out)@) + simple_parts_in(
            tree@,
            file@,
            ctx,
            i + 1,
            tree@.after(i as int),
        ),
    decreases tree@.left(i as int), 0nat,
{
    let hi: usize = tree.after(i);
    let mut lo: usize = i + 1;
    while lo < hi
        invariant
            i < lo,
            i < tree@.len(),
            hi == tree@.after(i as int),
            hi <= tree@.len(),
            views(out@) + simple_parts_in(tree@, file@, ctx, lo as int, hi as int)
                == views(old(out)@)
                + simple_parts_in(tree@, file@, ctx, i + 1, hi as int),
        decreases hi - lo,
    {
        if tree.named(lo) {
            if tree.is(lo, "type_identifier") {
                push_type_ref(out, tree, file, lo, tree.text(lo), ctx);
            } else if tree.is(lo, "type_arguments") {
                type_leaf(tree, lo, file, TypeRefContext::GenericArg, out);
            }
        }
        lo = tree.next(lo, hi);
    }
}

/// Adds the references to types in the parts of the type `i`.
fn push_user_parts(
    tree: &SyntaxTree,
    i: usize,
    file: &str,
    ctx: TypeRefContext,
    out: &mut Vec<Reference>,
)
    requires
        i < tree@.len(),
    ensures
        views(final(out)@) == views(old(out)@) + user_parts_in(
            tree@,
            file@,
            ctx,
            i + 1,
            tree@.after(i as int),
        ),
    decreases tree@.left(i as int), 0nat,
{
    let hi: usize = tree.after(i);
    let mut lo: usize = i + 1;
    while lo < hi
        invariant
            i < lo,
            i < tree@.len(),
            hi == tree@.after(i as int),
            hi <= tree@.len(),
            views(out@) + user_parts_in(tree@, file@, ctx, lo as int, hi as int) == views(old(out)@)
                + user_parts_in(tree@, file@, ctx, i + 1, hi as int),
        decreases hi - lo,
    {
        if tree.named(lo) {
            if tree.is(lo, "simple_user_type") {
                push_simple_parts(tree, lo, file, ctx, out);
            } else if tree.is(lo, "type_identifier") || tree.is(lo, "identifier") {
                push_type_ref(out, tree, file, lo, tree.text(lo), ctx);
            } else if tree.is(lo, "type_arguments") {
                type_leaf(tree, lo, file, TypeRefContext::GenericArg, out);
            }
        }
        lo = tree.next(lo, hi);
    }
}

/// Adds the references to types in the type `i`.
fn type_leaf(
    tree: &SyntaxTree,
    i: usize,
    file: &str,
    ctx: TypeRefContext,
    out: &mut Vec<Reference>,
)
    requires
        i < tree@.len(),
    ensures
        views(final(out)@) == views(old(out)@) + leaves_at(tree@, file@, ctx, i as int),
    decreases tree@.left(i as int), 1nat,
{
    if tree.is(i, "type_identifier") {
        push_type_ref(out, tree, file, i, tree.text(i), ctx);
    } else if tree.is(i, "user_type") {
        push_user_parts(tree, i, file, ctx, out);
    } else if tree.is(i, "type_arguments") {
        type_leaves(tree, i, file, TypeRefContext::GenericArg, out);
    } else {
        type_leaves(tree, i, file, ctx, out);
    }
}

/// Whether node `i` is a type that a name or a function can be declared with.
pub open spec fn is_type_shape(t: Syntax, i: int) -> bool {
    t.kind(i) == "user_type"@ || t.kind(i) == "nullable_type"@ || t.kind(i) == "function_type"@
        || t.kind(i) == "parenthesized_type"@ || t.kind(i) == "non_nullable_type"@
}

/// The first type among the named nodes of `lo..hi`.
pub open spec fn type_in(t: Syntax, lo: int, hi: int) -> Option<int>
    decreases hi - lo,
{
    if lo >= hi {
        None
    } else if t.named(lo) && (is_type_shape(t, lo) || t.kind(lo) == "type_identifier"@) {
        Some(lo)
    } else {
        type_in(t, t.next(lo, hi), hi)
    }
}

/// Whether node `i` is a type that a name or a function can be declared with.
fn has_type_shape(tree: &SyntaxTree, i: usize) -> (b: bool)
    ensures
        b == is_type_shape(tree@, i as int),
{
    tree.is(i, "user_type") || tree.is(i, "nullable_type") || tree.is(i, "function_type")
        || tree.is(i, "parenthesized_type") || tree.is(i, "non_nullable_type")
}

/// The first type among the named children of node `i`.
fn kotlin_type_child(tree: &SyntaxTree, i: usize) -> (ty: Option<usize>)
    requires
        i < tree@.len(),
    ensures
        opt_index(ty) == type_in(tree@, i + 1, tree@.after(i as int)),
        ty matches Some(c) ==> c < tree@.len(),
{
    let hi: usize = tree.after(i);
    let mut lo: usize = i + 1;
    while lo < hi
        invariant
            i < lo,
            hi == tree@.after(i as int),
            hi <= tree@.len(),
            type_in(tree@, lo as int, hi as int) == type_in(tree@, i + 1, hi as int),
        decreases hi - lo,
    {
        if tree.named(lo) && (has_type_shape(tree, lo) || tree.is(lo, "type_identifier")) {
            return Some(lo);
        }
        lo = tree.next(lo, hi);
    }
    None
}

/// The references to types in the first type of node `i`.
pub open spec fn typed_refs(t: Syntax, file: Seq<char>, ctx: TypeRefContext, i: int) -> Seq<
    ReferenceView,
> {
    match type_in(t, i + 1, t.after(i)) {
        Some(ty) => leaves_at(t, file, ctx, ty),
        None => Seq::empty(),
    }
}

/// The references to types in the subtree of node `i`: in the types of
/// parameters, in what functions return, and in the types of properties.
pub open spec fn type_refs_at(t: Syntax, file: Seq<char>, i: int) -> Seq<ReferenceView>
    decreases t.left(i), 0nat,
{
    let kind = t.kind(i);
    if !t.has(i) {
        Seq::empty()
    } else if kind == "parameter"@ || kind == "class_parameter"@ {
        typed_refs(t, file, TypeRefContext::ParameterType, i) + untyped_parts_in(
            t,
            file,
            i + 1,
            t.after(i),
        )
    } else if kind == "function_declaration"@ {
        function_parts_in(t, file, i + 1, t.after(i), false)
    } else if kind == "variable_declaration"@ {
        typed_refs(t, file, TypeRefContext::Field, i)
    } else {
        type_refs_in(t, file, i + 1, t.after(i))
    }
}

/// The references to types in the subtrees of the named nodes among the parts
/// `lo..hi` of a function, which stand behind its parameters or not. A type
/// behind the parameters is what the function returns; one before them is that of
/// its receiver.
pub open spec fn function_parts_in(
    t: Syntax,
    file: Seq<char>,
    lo: int,
    hi: int,
    past_params: bool,
) -> Seq<ReferenceView>
    decreases t.left(lo), 2nat,
{
    if lo >= hi || !t.has(lo) {
        Seq::empty()
    } else if !t.named(lo) {
        function_parts_in(t, file, t.next(lo, hi), hi, past_params)
    } else if t.kind(lo) == "function_value_parameters"@ {
        named_type_refs_in(t, file, lo + 1, t.after(lo)) + function_parts_in(
            t,
            file,
            t.next(lo, hi),
            hi,
            true,
        )
    } else if is_type_shape(t, lo) {
        (if past_params {
            leaves_at(t, file, TypeRefContext::ReturnType, lo)
        } else {
            Seq::empty()
        }) + function_parts_in(t, file, t.next(lo, hi), hi, past_params)
    } else {
        type_refs_at(t, file, lo) + function_parts_in(t, file, t.next(lo, hi), hi, past_params)
    }
}

/// The references to types in the subtrees of the nodes among `lo..hi`.
pub open spec fn type_refs_in(t: Syntax, file: Seq<char>, lo: int, hi: int) -> Seq<ReferenceView>
    decreases t.left(lo), 1nat,
{
    if lo >= hi || !t.has(lo) {
        Seq::empty()
    } else {
        type_refs_at(t, file, lo) + type_refs_in(t, file, t.next(lo, hi), hi)
    }
}

/// Adds the references to types in the subtrees of the children of node `i`.
fn collect_type_refs_all(tree: &SyntaxTree, i: usize, file: &str, out: &mut Vec<Reference>)
    requires
        i < tree@.len(),
    ensures
        views(final(out)@) == views(old(out)@) + type_refs_in(
            tree@, file@,
            i + 1,
            tree@.after(i as int),
        ),
    decreases tree@.left(i as int), 0nat,
{
    let hi: usize = tree.after(i);
    let mut lo: usize = i + 1;
    while lo < hi
        invariant
            i < lo,
            i < tree@.len(),
            hi == tree@.after(i as int),
            hi <= tree@.len(),
            views(out@) + type_refs_in(tree@, file@, lo as int, hi as int) == views(old(out)@)
                + type_refs_in(tree@, file@, i + 1, hi as int),
        decreases hi - lo,
    {
        collect_type_references(tree, lo, file, out);
        lo = tree.next(lo, hi);
    }
}

/// The references to types in the subtrees of the named nodes among `lo..hi`.
pub open spec fn named_type_refs_in(
    t: Syntax,
    file: Seq<char>,
    lo: int,
    hi: int,
) -> Seq<ReferenceView>
    decreases t.left(lo), 1nat,
{
    if lo >= hi || !t.has(lo) {
        Seq::empty()
    } else {
        (if t.named(lo) {
            type_refs_at(t, file, lo)
        } else {
            Seq::empty()
        }) + named_type_refs_in(t, file, t.next(lo, hi), hi)
    }
}

/// Adds the references to types in the subtrees of the named children of node `i`.
fn collect_type_refs_named(tree: &SyntaxTree, i: usize, file: &str, out: &mut Vec<Reference>)
    requires
        i < tree@.len(),
    ensures
        views(final(out)@) == views(old(out)@) + named_type_refs_in(
            tree@, file@,
            i + 1,
            tree@.after(i as int),
        ),
    decreases tree@.left(i as int), 0nat,
{
    let hi: usize = tree.after(i);
    let mut lo: usize = i + 1;
    while lo < hi
        invariant
            i < lo,
            i < tree@.len(),
            hi == tree@.after(i as int),
            hi <= tree@.len(),
            views(out@) + named_type_refs_in(tree@, file@, lo as int, hi as int) == views(old(out)@)
                + named_type_refs_in(tree@, file@, i + 1, hi as int),
        decreases hi - lo,
    {
        if tree.named(lo) {
            collect_type_references(tree, lo, file, out);
        }
        lo = tree.next(lo, hi);
    }
}

/// The references to types in the subtrees of the parts `lo..hi` of a parameter that
/// are not its type.
pub open spec fn untyped_parts_in(
    t: Syntax,
    file: Seq<char>,
    lo: int,
    hi: int,
) -> Seq<ReferenceView>
    decreases t.left(lo), 1nat,
{
    if lo >= hi || !t.has(lo) {
        Seq::empty()
    } else {
        (if !is_type_shape(t, lo) {
            type_refs_at(t, file, lo)
        } else {
            Seq::empty()
        }) + untyped_parts_in(t, file, t.next(lo, hi), hi)
    }
}

/// Adds the references to types in the parts of the parameter `i` that are not its
/// type.
fn collect_untyped_parts(tree: &SyntaxTree, i: usize, file: &str, out: &mut Vec<Reference>)
    requires
        i < tree@.len(),
    ensures
        views(final(out)@) == views(old(out)@) + untyped_parts_in(
            tree@, file@,
            i + 1,
            tree@.after(i as int),
        ),
    decreases tree@.left(i as int), 0nat,
{
    let hi: usize = tree.after(i);
    let mut lo: usize = i + 1;
    while lo < hi
        invariant
            i < lo,
            i < tree@.len(),
            hi == tree@.after(i as int),
            hi <= tree@.len(),
            views(out@) + untyped_parts_in(tree@, file@, lo as int, hi as int) == views(old(out)@)
                + untyped_parts_in(tree@, file@, i + 1, hi as int),
        decreases hi - lo,
    {
        if !has_type_shape(tree, lo) {
            collect_type_references(tree, lo, file, out);
        }
        lo = tree.next(lo, hi);
    }
}

/// Adds the references to types in the parts of the function `i`.
fn collect_function_parts(tree: &SyntaxTree, i: usize, file: &str, out: &mut Vec<Reference>)
    requires
        i < tree@.len(),
    ensures
        views(final(out)@) == views(old(out)@) + function_parts_in(
            tree@,
            file@,
            i + 1,
            tree@.after(i as int),
            false,
        ),
    decreases tree@.left(i as int), 0nat,
{
    let mut past_params: bool = false;
    let hi: usize = tree.after(i);
    let mut lo: usize = i + 1;
    while lo < hi
        invariant
            i < lo,
            i < tree@.len(),
            hi == tree@.after(i as int),
            hi <= tree@.len(),
            views(out@) + function_parts_in(tree@, file@, lo as int, hi as int, past_params)
                == views(old(out)@) + function_parts_in(tree@, file@, i + 1, hi as int, false),
        decreases hi - lo,
    {
        if tree.named(lo) {
            if tree.is(lo, "function_value_parameters") {
                past_params = true;
                collect_type_refs_named(tree, lo, file, out);
            } else if has_type_shape(tree, lo) {
                if past_params {
                    type_leaf(tree, lo, file, TypeRefContext::ReturnType, out);
                }
            } else {
                collect_type_references(tree, lo, file, out);
            }
        }
        lo = tree.next(lo, hi);
    }
}

/// Adds the references to types in the subtree of node `i`.
fn collect_type_references(tree: &SyntaxTree, i: usize, file: &str, out: &mut Vec<Reference>)
    requires
        i < tree@.len(),
    ensures
        views(final(out)@) == views(old(out)@) + type_refs_at(tree@, file@, i as int),
    decreases tree@.left(i as int), 1nat,
{
    if tree.is(i, "parameter") || tree.is(i, "class_parameter") {
        if let Some(ty) = kotlin_type_child(tree, i) {
            type_leaf(tree, ty, file, TypeRefContext::ParameterType, out);
        }
        collect_untyped_parts(tree, i, file, out);
    } else if tree.is(i, "function_declaration") {
        collect_function_parts(tree, i, file, out);
    } else if tree.is(i, "variable_declaration") {
        if let Some(ty) = kotlin_type_child(tree, i) {
            type_leaf(tree, ty, file, TypeRefContext::Field, out);
        }
    } else {
        collect_type_refs_all(tree, i, file, out);
    }
}

// ── Scopes ───────────────────────────────────────────────────────────────────

/// The scopes, with those that node `i` opens under the scope `parent` behind
/// them: a type, a function and a lambda expression each open one, in which what
/// their bodies hold stands; so does any other block.
pub open spec fn scopes_with(t: Syntax, i: int, parent: ScopeId, scopes: Seq<Scope>) -> Seq<Scope>
    decreases t.left(i), 0nat,
{
    if !t.has(i) {
        scopes
    } else if t.kind(i) == "class_declaration"@ || t.kind(i) == "object_declaration"@ || t.kind(i)
        == "companion_object"@ {
        let opened = scopes.push(
            Scope { parent: Some(parent), span: span_at(t, i), kind: ScopeKind::Type },
        );
        type_scopes(t, i + 1, t.after(i), scopes.len() as usize, opened)
    } else if t.kind(i) == "function_declaration"@ || t.kind(i) == "anonymous_function"@ {
        let opened = scopes.push(
            Scope { parent: Some(parent), span: span_at(t, i), kind: ScopeKind::Function },
        );
        function_scopes(t, i + 1, t.after(i), scopes.len() as usize, opened)
    } else if t.kind(i) == "secondary_constructor"@ {
        let opened = scopes.push(
            Scope { parent: Some(parent), span: span_at(t, i), kind: ScopeKind::Function },
        );
        block_scopes(t, i + 1, t.after(i), scopes.len() as usize, opened)
    } else if t.kind(i) == "lambda_literal"@ {
        let opened = scopes.push(
            Scope { parent: Some(parent), span: span_at(t, i), kind: ScopeKind::Function },
        );
        scopes_with_all(t, i + 1, t.after(i), scopes.len() as usize, opened)
    } else if t.kind(i) == "block"@ {
        let opened = scopes.push(
            Scope { parent: Some(parent), span: span_at(t, i), kind: ScopeKind::Block },
        );
        scopes_with_all(t, i + 1, t.after(i), scopes.len() as usize, opened)
    } else {
        scopes_with_all(t, i + 1, t.after(i), parent, scopes)
    }
}

/// The scopes, with those that the nodes `lo..hi` open under the scope `parent`
/// behind them.
pub open spec fn scopes_with_all(
    t: Syntax,
    lo: int,
    hi: int,
    parent: ScopeId,
    scopes: Seq<Scope>,
) -> Seq<Scope>
    decreases t.left(lo), 1nat,
{
    if lo >= hi || !t.has(lo) {
        scopes
    } else {
        scopes_with_all(t, t.next(lo, hi), hi, parent, scopes_with(t, lo, parent, scopes))
    }
}

/// The scopes of a Kotlin file.
pub open spec fn scopes_of(t: Syntax, source_len: int) -> Seq<Scope> {
    scopes_with_all(t, 1, t.after(0), 0, seq![module_scope(source_len)])
}

/// The scopes of a Kotlin file. The first is that of the file as a whole.
pub fn collect_scopes(tree: &SyntaxTree, source_len: usize) -> (scopes: Vec<Scope>)
    ensures
        scopes@ == scopes_of(tree@, source_len as int),
        are_file_scopes(scopes@, source_len as int),
        spans_nest(tree@) && span_at(tree@, 0).end <= source_len ==> scopes_nest(scopes@),
{
    let mut scopes: Vec<Scope> = Vec::new();
    push_scope(&mut scopes, None, ByteSpan { start: 0, end: source_len }, ScopeKind::Module);
    assert(scopes@ =~= seq![module_scope(source_len as int)]);
    if tree.len() > 0 {
        scope_all(tree, 0, 0, &mut scopes);
    }
    scopes
}

/// Opens the scopes of the children of node `i` under the scope `parent`.
fn scope_all(tree: &SyntaxTree, i: usize, parent: ScopeId, scopes: &mut Vec<Scope>)
    requires
        i < tree@.len(),
        parent < old(scopes)@.len(),
        is_scope_tree(old(scopes)@),
    ensures
        final(scopes)@ == scopes_with_all(
            tree@,
            i + 1,
            tree@.after(i as int),
            parent,
            old(scopes)@,
        ),
        is_scope_tree(final(scopes)@),
        extends(final(scopes)@, old(scopes)@),
        nests_under(tree@, i as int, parent, old(scopes)@) ==> scopes_nest(final(scopes)@),
    decreases tree@.left(i as int), 0nat,
{
    let hi: usize = tree.after(i);
    let mut lo: usize = i + 1;
    while lo < hi
        invariant
            i < lo,
            i < tree@.len(),
            hi == tree@.after(i as int),
            hi <= tree@.len(),
            parent < old(scopes)@.len(),
            is_scope_tree(scopes@),
            extends(scopes@, old(scopes)@),
            nests_under(tree@, i as int, parent, old(scopes)@) ==> scopes_nest(scopes@),
            scopes_with_all(tree@, lo as int, hi as int, parent, scopes@) == scopes_with_all(
                tree@,
                i + 1,
                hi as int,
                parent,
                old(scopes)@,
            ),
        decreases hi - lo,
    {
        scope_dfs(tree, lo, parent, scopes);
        lo = tree.next(lo, hi);
    }
}

/// Opens the scopes of node `i` under the scope `parent`.
fn scope_dfs(tree: &SyntaxTree, i: usize, parent: ScopeId, scopes: &mut Vec<Scope>)
    requires
        i < tree@.len(),
        parent < old(scopes)@.len(),
        is_scope_tree(old(scopes)@),
    ensures
        final(scopes)@ == scopes_with(tree@, i as int, parent, old(scopes)@),
        is_scope_tree(final(scopes)@),
        extends(final(scopes)@, old(scopes)@),
        nests_under(tree@, i as int, parent, old(scopes)@) ==> scopes_nest(final(scopes)@),
    decreases tree@.left(i as int), 1nat,
{
    if tree.is(i, "class_declaration") || tree.is(i, "object_declaration") || tree.is(
        i,
        "companion_object",
    ) {
        let id: usize = push_scope(scopes, Some(parent), node_span(tree, i), ScopeKind::Type);
        scope_types(tree, i, id, scopes);
    } else if tree.is(i, "function_declaration") || tree.is(i, "anonymous_function") {
        let id: usize = push_scope(scopes, Some(parent), node_span(tree, i), ScopeKind::Function);
        scope_functions(tree, i, id, scopes);
    } else if tree.is(i, "secondary_constructor") {
        let id: usize = push_scope(scopes, Some(parent), node_span(tree, i), ScopeKind::Function);
        scope_blocks(tree, i, id, scopes);
    } else if tree.is(i, "lambda_literal") {
        let id: usize = push_scope(scopes, Some(parent), node_span(tree, i), ScopeKind::Function);
        scope_all(tree, i, id, scopes);
    } else if tree.is(i, "block") {
        let id: usize = push_scope(scopes, Some(parent), node_span(tree, i), ScopeKind::Block);
        scope_all(tree, i, id, scopes);
    } else {
        scope_all(tree, i, parent, scopes);
    }
}

/// The scopes, with those that the parts `lo..hi` of a type open under the scope
/// `parent` behind them. The members in its body stand in that scope itself.
pub open spec fn type_scopes(
    t: Syntax,
    lo: int,
    hi: int,
    parent: ScopeId,
    scopes: Seq<Scope>,
) -> Seq<Scope>
    decreases t.left(lo), 1nat,
{
    if lo >= hi || !t.has(lo) {
        scopes
    } else if is_type_body(t, lo) {
        type_scopes(
            t,
            t.next(lo, hi),
            hi,
            parent,
            scopes_with_all(t, lo + 1, t.after(lo), parent, scopes),
        )
    } else {
        type_scopes(t, t.next(lo, hi), hi, parent, scopes_with(t, lo, parent, scopes))
    }
}

/// Opens the scopes of the parts of the type `i` under the scope `parent`.
fn scope_types(tree: &SyntaxTree, i: usize, parent: ScopeId, scopes: &mut Vec<Scope>)
    requires
        i < tree@.len(),
        parent < old(scopes)@.len(),
        is_scope_tree(old(scopes)@),
    ensures
        final(scopes)@ == type_scopes(
            tree@,
            i + 1,
            tree@.after(i as int),
            parent,
            old(scopes)@,
        ),
        is_scope_tree(final(scopes)@),
        extends(final(scopes)@, old(scopes)@),
        nests_under(tree@, i as int, parent, old(scopes)@) ==> scopes_nest(final(scopes)@),
    decreases tree@.left(i as int), 0nat,
{
    let hi: usize = tree.after(i);
    let mut lo: usize = i + 1;
    while lo < hi
        invariant
            i < lo,
            i < tree@.len(),
            hi == tree@.after(i as int),
            hi <= tree@.len(),
            parent < old(scopes)@.len(),
            is_scope_tree(scopes@),
            extends(scopes@, old(scopes)@),
            nests_under(tree@, i as int, parent, old(scopes)@) ==> scopes_nest(scopes@),
            type_scopes(tree@, lo as int, hi as int, parent, scopes@) == type_scopes(
                tree@,
                i + 1,
                hi as int,
                parent,
                old(scopes)@,
            ),
        decreases hi - lo,
    {
        if tree.is(lo, "class_body") || tree.is(lo, "enum_class_body") {
            scope_all(tree, lo, parent, scopes);
        } else {
            scope_dfs(tree, lo, parent, scopes);
        }
        lo = tree.next(lo, hi);
    }
}

/// The scopes, with those that the nodes `lo..hi` open under the scope `parent` behind
/// them. The statements of a block stand in that scope itself.
pub open spec fn block_scopes(
    t: Syntax,
    lo: int,
    hi: int,
    parent: ScopeId,
    scopes: Seq<Scope>,
) -> Seq<Scope>
    decreases t.left(lo), 1nat,
{
    if lo >= hi || !t.has(lo) {
        scopes
    } else if t.kind(lo) == "block"@ {
        block_scopes(
            t,
            t.next(lo, hi),
            hi,
            parent,
            scopes_with_all(t, lo + 1, t.after(lo), parent, scopes),
        )
    } else {
        block_scopes(t, t.next(lo, hi), hi, parent, scopes_with(t, lo, parent, scopes))
    }
}

/// Opens the scopes of the parts of node `i` under the scope `parent`, those of the
/// statements of a block among them.
fn scope_blocks(tree: &SyntaxTree, i: usize, parent: ScopeId, scopes: &mut Vec<Scope>)
    requires
        i < tree@.len(),
        parent < old(scopes)@.len(),
        is_scope_tree(old(scopes)@),
    ensures
        final(scopes)@ == block_scopes(
            tree@,
            i + 1,
            tree@.after(i as int),
            parent,
            old(scopes)@,
        ),
        is_scope_tree(final(scopes)@),
        extends(final(scopes)@, old(scopes)@),
        nests_under(tree@, i as int, parent, old(scopes)@) ==> scopes_nest(final(scopes)@),
    decreases tree@.left(i as int), 0nat,
{
    let hi: usize = tree.after(i);
    let mut lo: usize = i + 1;
    while lo < hi
        invariant
            i < lo,
            i < tree@.len(),
            hi == tree@.after(i as int),
            hi <= tree@.len(),
            parent < old(scopes)@.len(),
            is_scope_tree(scopes@),
            extends(scopes@, old(scopes)@),
            nests_under(tree@, i as int, parent, old(scopes)@) ==> scopes_nest(scopes@),
            block_scopes(tree@, lo as int, hi as int, parent, scopes@) == block_scopes(
                tree@,
                i + 1,
                hi as int,
                parent,
                old(scopes)@,
            ),
        decreases hi - lo,
    {
        if tree.is(lo, "block") {
            scope_all(tree, lo, parent, scopes);
        } else {
            scope_dfs(tree, lo, parent, scopes);
        }
        lo = tree.next(lo, hi);
    }
}

/// The scopes, with those that the parts `lo..hi` of a function open under the scope
/// `parent` behind them. The statements or the expression of its body stand in that
/// scope itself.
pub open spec fn function_scopes(
    t: Syntax,
    lo: int,
    hi: int,
    parent: ScopeId,
    scopes: Seq<Scope>,
) -> Seq<Scope>
    decreases t.left(lo), 1nat,
{
    if lo >= hi || !t.has(lo) {
        scopes
    } else if t.kind(lo) == "function_body"@ {
        function_scopes(
            t,
            t.next(lo, hi),
            hi,
            parent,
            if t.child_of_kind(lo, "block"@) is Some {
                block_scopes(t, lo + 1, t.after(lo), parent, scopes)
            } else {
                scopes_with_all(t, lo + 1, t.after(lo), parent, scopes)
            },
        )
    } else {
        function_scopes(t, t.next(lo, hi), hi, parent, scopes_with(t, lo, parent, scopes))
    }
}

/// Opens the scopes of the parts of the function `i` under the scope `parent`.
fn scope_functions(tree: &SyntaxTree, i: usize, parent: ScopeId, scopes: &mut Vec<Scope>)
    requires
        i < tree@.len(),
        parent < old(scopes)@.len(),
        is_scope_tree(old(scopes)@),
    ensures
        final(scopes)@ == function_scopes(
            tree@,
            i + 1,
            tree@.after(i as int),
            parent,
            old(scopes)@,
        ),
        is_scope_tree(final(scopes)@),
        extends(final(scopes)@, old(scopes)@),
        nests_under(tree@, i as int, parent, old(scopes)@) ==> scopes_nest(final(scopes)@),
    decreases tree@.left(i as int), 0nat,
{
    let hi: usize = tree.after(i);
    let mut lo: usize = i + 1;
    while lo < hi
        invariant
            i < lo,
            i < tree@.len(),
            hi == tree@.after(i as int),
            hi <= tree@.len(),
            parent < old(scopes)@.len(),
            is_scope_tree(scopes@),
            extends(scopes@, old(scopes)@),
            nests_under(tree@, i as int, parent, old(scopes)@) ==> scopes_nest(scopes@),
            function_scopes(tree@, lo as int, hi as int, parent, scopes@) == function_scopes(
                tree@,
                i + 1,
                hi as int,
                parent,
                old(scopes)@,
            ),
        decreases hi - lo,
    {
        if tree.is(lo, "function_body") {
            if tree.child_of_kind(lo, "block").is_some() {
                scope_blocks(tree, lo, parent, scopes);
            } else {
                scope_all(tree, lo, parent, scopes);
            }
        } else {
            scope_dfs(tree, lo, parent, scopes);
        }
        lo = tree.next(lo, hi);
    }
}

// ── Bindings ─────────────────────────────────────────────────────────────────

/// Whether a byte lies in a function or a block, and not in a type in it.
pub open spec fn in_code(scopes: Seq<Scope>, byte: int) -> bool {
    let id = home_scope(scopes, byte) as int;
    id < scopes.len() && (scopes[id].kind == ScopeKind::Function || scopes[id].kind
        == ScopeKind::Block)
}

/// Whether a byte lies in a function or a block, and not in a type in it.
fn is_in_code(byte: usize, scopes: &Vec<Scope>) -> (b: bool)
    ensures
        b == in_code(scopes@, byte as int),
{
    let id: usize = match innermost_scope(byte, scopes) {
        Some(id) => id,
        None => 0,
    };
    id < scopes.len() && (scopes[id].kind == ScopeKind::Function || scopes[id].kind
        == ScopeKind::Block)
}

/// The name of the type of node `i`, as it is written, without its arguments and
/// without what it is qualified with. Only a plain type has one.
pub open spec fn written_type(t: Syntax, i: int) -> Option<Seq<char>> {
    match t.named_child_of_kind(i, "user_type"@) {
        Some(ty) => Some(simple_name(t.text(ty), "."@)),
        None => None,
    }
}

/// The name of the type of node `i`, as it is written.
fn read_written_type(tree: &SyntaxTree, i: usize) -> (name: Option<String>)
    requires
        i < tree@.len(),
    ensures
        opt_text(name) == written_type(tree@, i as int),
{
    match tree.named_child_of_kind(i, "user_type") {
        Some(ty) => Some(simple_type_name(tree.text(ty), ".").to_owned()),
        None => None,
    }
}

/// The first named node of `lo..hi` behind `decl`, where `past` says whether that
/// stands before `lo`.
pub open spec fn named_behind(t: Syntax, lo: int, hi: int, decl: int, past: bool) -> Option<int>
    decreases hi - lo,
{
    if lo >= hi {
        None
    } else if t.named(lo) && past {
        Some(lo)
    } else {
        named_behind(t, t.next(lo, hi), hi, decl, past || (t.named(lo) && lo == decl))
    }
}

/// The first named child of node `i` behind `decl`.
fn find_named_behind(tree: &SyntaxTree, i: usize, decl: usize) -> (found: Option<usize>)
    requires
        i < tree@.len(),
    ensures
        opt_index(found) == named_behind(
            tree@,
            i + 1,
            tree@.after(i as int),
            decl as int,
            false,
        ),
        found matches Some(f) ==> f < tree@.len(),
{
    let mut past: bool = false;
    let hi: usize = tree.after(i);
    let mut lo: usize = i + 1;
    while lo < hi
        invariant
            i < lo,
            hi == tree@.after(i as int),
            hi <= tree@.len(),
            named_behind(tree@, lo as int, hi as int, decl as int, past) == named_behind(
                tree@,
                i + 1,
                hi as int,
                decl as int,
                false,
            ),
        decreases hi - lo,
    {
        if tree.named(lo) {
            if past {
                return Some(lo);
            }
            if lo == decl {
                past = true;
            }
        }
        lo = tree.next(lo, hi);
    }
    None
}

/// The type of the name that the variable declaration `v` of the property `i`
/// introduces: the one that is written, or, where none is, that which the call of
/// a plain name behind it makes. A type of another shape has no name here, and
/// nothing is guessed.
pub open spec fn property_type(t: Syntax, i: int, v: int) -> Option<Seq<char>> {
    match written_type(t, v) {
        Some(name) => Some(name),
        None => if t.child_of_kind(v, ":"@) is Some {
            None
        } else {
            match named_behind(t, i + 1, t.after(i), v, false) {
                Some(value) => match t.named_child(value) {
                    Some(callee) => if t.kind(value) == "call_expression"@ && t.kind(callee)
                        == "identifier"@ {
                        Some(simple_name(t.text(callee), "."@))
                    } else {
                        None
                    },
                    None => None,
                },
                None => None,
            }
        },
    }
}

/// The type of the name that the variable declaration `v` of the property `i`
/// introduces.
fn property_declaration_type_name(tree: &SyntaxTree, i: usize, v: usize) -> (name: Option<String>)
    requires
        i < tree@.len(),
        v < tree@.len(),
    ensures
        opt_text(name) == property_type(tree@, i as int, v as int),
{
    if let Some(name) = read_written_type(tree, v) {
        return Some(name);
    }
    if tree.child_of_kind(v, ":").is_some() {
        return None;
    }
    if let Some(value) = find_named_behind(tree, i, v) {
        if let Some(callee) = tree.named_child(value) {
            if tree.is(value, "call_expression") && tree.is(callee, "identifier") {
                return Some(simple_type_name(tree.text(callee), ".").to_owned());
            }
        }
    }
    None
}

/// The name that the parameter `i` introduces, with its type.
pub open spec fn param_at(t: Syntax, scopes: Seq<Scope>, i: int) -> Seq<BindingView> {
    match t.child_of_kind(i, "identifier"@) {
        Some(n) => if t.named(i) && t.kind(i) == "parameter"@ {
            seq![
                local_binding(
                    scopes,
                    t.text(n),
                    t.start(n),
                    BindingKind::Param,
                    written_type(t, i),
                ),
            ]
        } else {
            Seq::empty()
        },
        None => Seq::empty(),
    }
}

/// The names that the parameters among `lo..hi` introduce.
pub open spec fn params_in(t: Syntax, scopes: Seq<Scope>, lo: int, hi: int) -> Seq<BindingView>
    decreases hi - lo,
{
    if lo >= hi {
        Seq::empty()
    } else {
        param_at(t, scopes, lo) + params_in(t, scopes, t.next(lo, hi), hi)
    }
}

/// Adds the names that the parameters in the list `i` introduce.
fn collect_params(tree: &SyntaxTree, i: usize, scopes: &Vec<Scope>, out: &mut Vec<Binding>)
    requires
        i < tree@.len(),
    ensures
        views(final(out)@)
            == views(old(out)@) + params_in(tree@, scopes@, i + 1, tree@.after(i as int)),
{
    let hi: usize = tree.after(i);
    let mut lo: usize = i + 1;
    while lo < hi
        invariant
            i < lo,
            i < tree@.len(),
            hi == tree@.after(i as int),
            hi <= tree@.len(),
            views(out@) + params_in(tree@, scopes@, lo as int, hi as int) == views(old(out)@)
                + params_in(tree@, scopes@, i + 1, hi as int),
        decreases hi - lo,
    {
        if tree.named(lo) && tree.is(lo, "parameter") {
            if let Some(n) = tree.child_of_kind(lo, "identifier") {
                let declared_type = read_written_type(tree, lo);
                push_typed_binding(
                    out,
                    tree.text(n).to_owned(),
                    tree.start(n),
                    BindingKind::Param,
                    scopes,
                    declared_type,
                );
            }
        }
        lo = tree.next(lo, hi);
    }
}

/// The names that the lists of parameters among `lo..hi` introduce.
pub open spec fn param_lists_in(t: Syntax, scopes: Seq<Scope>, lo: int, hi: int) -> Seq<BindingView>
    decreases hi - lo,
{
    if lo >= hi {
        Seq::empty()
    } else {
        (if t.kind(lo) == "function_value_parameters"@ {
            params_in(t, scopes, lo + 1, t.after(lo))
        } else {
            Seq::empty()
        }) + param_lists_in(t, scopes, t.next(lo, hi), hi)
    }
}

/// Adds the names that the parameters of the function `i` introduce.
fn push_param_lists(tree: &SyntaxTree, i: usize, scopes: &Vec<Scope>, out: &mut Vec<Binding>)
    requires
        i < tree@.len(),
    ensures
        views(final(out)@)
            == views(old(out)@) + param_lists_in(tree@, scopes@, i + 1, tree@.after(i as int)),
{
    let hi: usize = tree.after(i);
    let mut lo: usize = i + 1;
    while lo < hi
        invariant
            i < lo,
            i < tree@.len(),
            hi == tree@.after(i as int),
            hi <= tree@.len(),
            views(out@) + param_lists_in(tree@, scopes@, lo as int, hi as int) == views(old(out)@)
                + param_lists_in(tree@, scopes@, i + 1, hi as int),
        decreases hi - lo,
    {
        if tree.is(lo, "function_value_parameters") {
            collect_params(tree, lo, scopes, out);
        }
        lo = tree.next(lo, hi);
    }
}

/// The names that the parameters `lo..hi` of a lambda expression introduce.
pub open spec fn lambda_names_in(
    t: Syntax,
    scopes: Seq<Scope>,
    lo: int,
    hi: int,
) -> Seq<BindingView>
    decreases hi - lo,
{
    if lo >= hi {
        Seq::empty()
    } else {
        (match t.child_of_kind(lo, "identifier"@) {
            Some(n) => if t.kind(lo) == "variable_declaration"@ {
                seq![local_binding(scopes, t.text(n), t.start(n), BindingKind::Param, None)]
            } else {
                Seq::empty()
            },
            None => Seq::empty(),
        }) + lambda_names_in(t, scopes, t.next(lo, hi), hi)
    }
}

/// Adds the names that the parameters `i` of a lambda expression introduce.
fn push_lambda_names(tree: &SyntaxTree, i: usize, scopes: &Vec<Scope>, out: &mut Vec<Binding>)
    requires
        i < tree@.len(),
    ensures
        views(final(out)@)
            == views(old(out)@) + lambda_names_in(tree@, scopes@, i + 1, tree@.after(i as int)),
{
    let hi: usize = tree.after(i);
    let mut lo: usize = i + 1;
    while lo < hi
        invariant
            i < lo,
            i < tree@.len(),
            hi == tree@.after(i as int),
            hi <= tree@.len(),
            views(out@) + lambda_names_in(tree@, scopes@, lo as int, hi as int) == views(old(out)@)
                + lambda_names_in(tree@, scopes@, i + 1, hi as int),
        decreases hi - lo,
    {
        if tree.is(lo, "variable_declaration") {
            if let Some(n) = tree.child_of_kind(lo, "identifier") {
                let name = tree.text(n).to_owned();
                push_binding(out, name, tree.start(n), BindingKind::Param, scopes);
            }
        }
        lo = tree.next(lo, hi);
    }
}

/// The names that the parameters among the parts `lo..hi` of a lambda expression
/// introduce.
pub open spec fn lambda_params_in(
    t: Syntax,
    scopes: Seq<Scope>,
    lo: int,
    hi: int,
) -> Seq<BindingView>
    decreases hi - lo,
{
    if lo >= hi {
        Seq::empty()
    } else {
        (if t.kind(lo) == "lambda_parameters"@ {
            lambda_names_in(t, scopes, lo + 1, t.after(lo))
        } else {
            Seq::empty()
        }) + lambda_params_in(t, scopes, t.next(lo, hi), hi)
    }
}

/// Adds the names that the parameters of the lambda expression `i` introduce.
fn push_lambda_params(tree: &SyntaxTree, i: usize, scopes: &Vec<Scope>, out: &mut Vec<Binding>)
    requires
        i < tree@.len(),
    ensures
        views(final(out)@)
            == views(old(out)@) + lambda_params_in(tree@, scopes@, i + 1, tree@.after(i as int)),
{
    let hi: usize = tree.after(i);
    let mut lo: usize = i + 1;
    while lo < hi
        invariant
            i < lo,
            i < tree@.len(),
            hi == tree@.after(i as int),
            hi <= tree@.len(),
            views(out@) + lambda_params_in(tree@, scopes@, lo as int, hi as int) == views(old(out)@)
                + lambda_params_in(tree@, scopes@, i + 1, hi as int),
        decreases hi - lo,
    {
        if tree.is(lo, "lambda_parameters") {
            push_lambda_names(tree, lo, scopes, out);
        }
        lo = tree.next(lo, hi);
    }
}

/// The name that the first variable declaration of node `i`, a property or a
/// loop, introduces in a function or a block.
pub open spec fn local_of(t: Syntax, scopes: Seq<Scope>, i: int) -> Seq<BindingView> {
    match t.child_of_kind(i, "variable_declaration"@) {
        Some(v) => match t.child_of_kind(v, "identifier"@) {
            Some(n) => if in_code(scopes, t.start(n)) {
                let declared_type = if t.kind(i) == "property_declaration"@ {
                    property_type(t, i, v)
                } else {
                    None
                };
                seq![
                    local_binding(
                        scopes,
                        t.text(n),
                        t.start(n),
                        BindingKind::Local,
                        declared_type,
                    ),
                ]
            } else {
                Seq::empty()
            },
            None => Seq::empty(),
        },
        None => Seq::empty(),
    }
}

/// Adds the name that the first variable declaration of node `i` introduces.
fn push_local(tree: &SyntaxTree, i: usize, scopes: &Vec<Scope>, out: &mut Vec<Binding>)
    requires
        i < tree@.len(),
    ensures
        views(final(out)@) == views(old(out)@) + local_of(tree@, scopes@, i as int),
{
    if let Some(v) = tree.child_of_kind(i, "variable_declaration") {
        if let Some(n) = tree.child_of_kind(v, "identifier") {
            let intro: usize = tree.start(n);
            if is_in_code(intro, scopes) {
                let declared_type = if tree.is(i, "property_declaration") {
                    property_declaration_type_name(tree, i, v)
                } else {
                    None
                };
                push_typed_binding(
                    out,
                    tree.text(n).to_owned(),
                    intro,
                    BindingKind::Local,
                    scopes,
                    declared_type,
                );
            }
        }
    }
}

/// The names that node `i` itself introduces: the parameters of a function or a
/// lambda expression, and the variable of a property or a loop in code.
pub open spec fn introduced(t: Syntax, scopes: Seq<Scope>, i: int) -> Seq<BindingView> {
    let kind = t.kind(i);
    if kind == "function_declaration"@ || kind == "anonymous_function"@ || kind
        == "secondary_constructor"@ {
        param_lists_in(t, scopes, i + 1, t.after(i))
    } else if kind == "lambda_literal"@ {
        lambda_params_in(t, scopes, i + 1, t.after(i))
    } else if kind == "property_declaration"@ || kind == "for_statement"@ {
        local_of(t, scopes, i)
    } else {
        Seq::empty()
    }
}

/// The names that are introduced in the subtree of node `i`.
pub open spec fn bindings_at(t: Syntax, scopes: Seq<Scope>, i: int) -> Seq<BindingView>
    decreases t.left(i), 0nat,
{
    if !t.has(i) {
        Seq::empty()
    } else {
        introduced(t, scopes, i) + bindings_in(t, scopes, i + 1, t.after(i))
    }
}

/// The names that are introduced in the subtrees of the nodes `lo..hi`.
pub open spec fn bindings_in(t: Syntax, scopes: Seq<Scope>, lo: int, hi: int) -> Seq<BindingView>
    decreases t.left(lo), 1nat,
{
    if lo >= hi || !t.has(lo) {
        Seq::empty()
    } else {
        bindings_at(t, scopes, lo) + bindings_in(t, scopes, t.next(lo, hi), hi)
    }
}

/// Adds the names that are introduced in the subtree of node `i`.
fn collect_bindings_dfs(tree: &SyntaxTree, i: usize, scopes: &Vec<Scope>, out: &mut Vec<Binding>)
    requires
        i < tree@.len(),
    ensures
        views(final(out)@) == views(old(out)@) + bindings_at(tree@, scopes@, i as int),
    decreases tree@.left(i as int),
{
    if tree.is(i, "function_declaration") || tree.is(i, "anonymous_function") || tree.is(
        i,
        "secondary_constructor",
    ) {
        push_param_lists(tree, i, scopes, out);
    } else if tree.is(i, "lambda_literal") {
        push_lambda_params(tree, i, scopes, out);
    } else if tree.is(i, "property_declaration") || tree.is(i, "for_statement") {
        push_local(tree, i, scopes, out);
    }
    let hi: usize = tree.after(i);
    let mut lo: usize = i + 1;
    while lo < hi
        invariant
            i < lo,
            i < tree@.len(),
            hi == tree@.after(i as int),
            hi <= tree@.len(),
            views(out@) + bindings_in(tree@, scopes@, lo as int, hi as int) == views(old(out)@)
                + bindings_at(tree@, scopes@, i as int),
        decreases hi - lo,
    {
        collect_bindings_dfs(tree, lo, scopes, out);
        lo = tree.next(lo, hi);
    }
}

/// The names that are introduced of node `i` itself, for each `i`.
pub open spec fn bindings_of_nodes(
    t: Syntax,
    scopes: Seq<Scope>,
) -> spec_fn(int) -> Seq<BindingView> {
    |j: int| introduced(t, scopes, j)
}

/// The names that are introduced in a subtree are those of its nodes, in
/// document order: none is missed and none is reported twice.
pub proof fn bindings_in_document_order(t: Syntax, scopes: Seq<Scope>, i: int)
    requires
        t.nested(),
        t.has(i),
    ensures
        bindings_at(t, scopes, i) == in_order(bindings_of_nodes(t, scopes), i, t.after(i)),
    decreases t.left(i), 0nat,
{
    let items = bindings_of_nodes(t, scopes);
    bindings_of_siblings(t, scopes, i + 1, t.after(i));
    assert(in_order(items, i, t.after(i)) == items(i) + in_order(items, i + 1, t.after(i)));
    assert(Seq::<BindingView>::empty() + items(i) =~= items(i) + Seq::<BindingView>::empty());
}

proof fn bindings_of_siblings(t: Syntax, scopes: Seq<Scope>, lo: int, hi: int)
    requires
        t.nested(),
        t.closed_range(lo, hi),
    ensures
        bindings_in(t, scopes, lo, hi) == in_order(bindings_of_nodes(t, scopes), lo, hi),
    decreases t.left(lo), 1nat,
{
    if lo < hi {
        let items = bindings_of_nodes(t, scopes);
        bindings_in_document_order(t, scopes, lo);
        bindings_of_siblings(t, scopes, t.after(lo), hi);
        in_order_split(items, lo, t.after(lo), hi);
    }
}

/// The names that are introduced in the functions and blocks of a Kotlin file.
fn collect_bindings(tree: &SyntaxTree, scopes: &Vec<Scope>) -> (out: Vec<Binding>)
    ensures
        views(out@) == bindings_at(tree@, scopes@, 0),
{
    let mut out: Vec<Binding> = Vec::new();
    proof {
        views_empty::<Binding>();
    }
    if tree.len() > 0 {
        collect_bindings_dfs(tree, 0, scopes, &mut out);
    }
    out
}

// ── Inheritance ──────────────────────────────────────────────────────────────

/// The first plain type in the subtree of node `i`.
pub open spec fn user_type_at(t: Syntax, i: int) -> Option<int>
    decreases t.left(i), 0nat,
{
    if !t.has(i) {
        None
    } else if t.kind(i) == "user_type"@ {
        Some(i)
    } else {
        user_type_in(t, i + 1, t.after(i))
    }
}

/// The first plain type in the subtrees of the nodes `lo..hi`.
pub open spec fn user_type_in(t: Syntax, lo: int, hi: int) -> Option<int>
    decreases t.left(lo), 1nat,
{
    if lo >= hi || !t.has(lo) {
        None
    } else {
        match user_type_at(t, lo) {
            Some(found) => Some(found),
            None => user_type_in(t, t.next(lo, hi), hi),
        }
    }
}

/// The first plain type in the subtree of node `i`.
fn first_user_type(tree: &SyntaxTree, i: usize) -> (found: Option<usize>)
    requires
        i < tree@.len(),
    ensures
        opt_index(found) == user_type_at(tree@, i as int),
    decreases tree@.left(i as int),
{
    if tree.is(i, "user_type") {
        return Some(i);
    }
    let hi: usize = tree.after(i);
    let mut lo: usize = i + 1;
    while lo < hi
        invariant
            i < lo,
            i < tree@.len(),
            hi == tree@.after(i as int),
            hi <= tree@.len(),
            user_type_in(tree@, lo as int, hi as int) == user_type_at(tree@, i as int),
        decreases hi - lo,
    {
        if let Some(found) = first_user_type(tree, lo) {
            return Some(found);
        }
        lo = tree.next(lo, hi);
    }
    None
}

/// The reference to the base that the specifier `i` names.
pub open spec fn base_of(t: Syntax, file: Seq<char>, i: int) -> Seq<ReferenceView> {
    match user_type_at(t, i) {
        Some(ty) => if t.kind(i) == "delegation_specifier"@ {
            seq![
                reference_at(
                    t,
                    file,
                    ty,
                    simple_name(t.text(ty), "."@),
                    RefRole::IsImplementation,
                ),
            ]
        } else {
            Seq::empty()
        },
        None => Seq::empty(),
    }
}

/// The references to the bases that the specifiers among `lo..hi` name.
pub open spec fn bases_in(t: Syntax, file: Seq<char>, lo: int, hi: int) -> Seq<ReferenceView>
    decreases hi - lo,
{
    if lo >= hi {
        Seq::empty()
    } else {
        base_of(t, file, lo) + bases_in(t, file, t.next(lo, hi), hi)
    }
}

/// Adds the references to the bases that the specifiers in the list `i` name.
fn push_bases(tree: &SyntaxTree, i: usize, file: &str, out: &mut Vec<Reference>)
    requires
        i < tree@.len(),
    ensures
        views(final(out)@)
            == views(old(out)@) + bases_in(tree@, file@, i + 1, tree@.after(i as int)),
{
    let hi: usize = tree.after(i);
    let mut lo: usize = i + 1;
    while lo < hi
        invariant
            i < lo,
            i < tree@.len(),
            hi == tree@.after(i as int),
            hi <= tree@.len(),
            views(out@) + bases_in(tree@, file@, lo as int, hi as int) == views(old(out)@)
                + bases_in(tree@, file@, i + 1, hi as int),
        decreases hi - lo,
    {
        if tree.is(lo, "delegation_specifier") {
            if let Some(ty) = first_user_type(tree, lo) {
                let name = simple_type_name(tree.text(ty), ".");
                push_ref(out, tree, file, ty, name, RefRole::IsImplementation);
            }
        }
        lo = tree.next(lo, hi);
    }
}

/// The references to the bases that the lists among `lo..hi` name.
pub open spec fn base_lists_in(t: Syntax, file: Seq<char>, lo: int, hi: int) -> Seq<ReferenceView>
    decreases hi - lo,
{
    if lo >= hi {
        Seq::empty()
    } else {
        (if t.kind(lo) == "delegation_specifiers"@ {
            bases_in(t, file, lo + 1, t.after(lo))
        } else {
            Seq::empty()
        }) + base_lists_in(t, file, t.next(lo, hi), hi)
    }
}

/// Adds the references to the bases of the type `i`.
fn push_base_lists(tree: &SyntaxTree, i: usize, file: &str, out: &mut Vec<Reference>)
    requires
        i < tree@.len(),
    ensures
        views(final(out)@)
            == views(old(out)@) + base_lists_in(tree@, file@, i + 1, tree@.after(i as int)),
{
    let hi: usize = tree.after(i);
    let mut lo: usize = i + 1;
    while lo < hi
        invariant
            i < lo,
            i < tree@.len(),
            hi == tree@.after(i as int),
            hi <= tree@.len(),
            views(out@) + base_lists_in(tree@, file@, lo as int, hi as int) == views(old(out)@)
                + base_lists_in(tree@, file@, i + 1, hi as int),
        decreases hi - lo,
    {
        if tree.is(lo, "delegation_specifiers") {
            push_bases(tree, lo, file, out);
        }
        lo = tree.next(lo, hi);
    }
}

/// The references to the bases of the class or object `i`.
pub open spec fn declared_bases(t: Syntax, file: Seq<char>, i: int) -> Seq<ReferenceView> {
    if t.kind(i) == "class_declaration"@ || t.kind(i) == "object_declaration"@ {
        base_lists_in(t, file, i + 1, t.after(i))
    } else {
        Seq::empty()
    }
}

/// The references to bases in the subtree of node `i`.
pub open spec fn inherits_at(t: Syntax, file: Seq<char>, i: int) -> Seq<ReferenceView>
    decreases t.left(i), 0nat,
{
    if !t.has(i) {
        Seq::empty()
    } else {
        declared_bases(t, file, i) + inherits_in(t, file, i + 1, t.after(i))
    }
}

/// The references to bases in the subtrees of the nodes `lo..hi`.
pub open spec fn inherits_in(t: Syntax, file: Seq<char>, lo: int, hi: int) -> Seq<ReferenceView>
    decreases t.left(lo), 1nat,
{
    if lo >= hi || !t.has(lo) {
        Seq::empty()
    } else {
        inherits_at(t, file, lo) + inherits_in(t, file, t.next(lo, hi), hi)
    }
}

/// Adds the references to bases in the subtree of node `i`.
fn collect_inheritance(tree: &SyntaxTree, i: usize, file: &str, out: &mut Vec<Reference>)
    requires
        i < tree@.len(),
    ensures
        views(final(out)@) == views(old(out)@) + inherits_at(tree@, file@, i as int),
    decreases tree@.left(i as int),
{
    if tree.is(i, "class_declaration") || tree.is(i, "object_declaration") {
        push_base_lists(tree, i, file, out);
    }
    let hi: usize = tree.after(i);
    let mut lo: usize = i + 1;
    while lo < hi
        invariant
            i < lo,
            i < tree@.len(),
            hi == tree@.after(i as int),
            hi <= tree@.len(),
            views(out@) + inherits_in(tree@, file@, lo as int, hi as int) == views(old(out)@)
                + inherits_at(tree@, file@, i as int),
        decreases hi - lo,
    {
        collect_inheritance(tree, lo, file, out);
        lo = tree.next(lo, hi);
    }
}

/// The references to bases of node `i` itself, for each `i`.
pub open spec fn inherits_of_nodes(
    t: Syntax,
    file: Seq<char>,
) -> spec_fn(int) -> Seq<ReferenceView> {
    |j: int| declared_bases(t, file, j)
}

/// The references to bases in a subtree are those of its nodes, in document
/// order: none is missed and none is reported twice.
pub proof fn inherits_in_document_order(t: Syntax, file: Seq<char>, i: int)
    requires
        t.nested(),
        t.has(i),
    ensures
        inherits_at(t, file, i) == in_order(inherits_of_nodes(t, file), i, t.after(i)),
    decreases t.left(i), 0nat,
{
    let items = inherits_of_nodes(t, file);
    inherits_of_siblings(t, file, i + 1, t.after(i));
    assert(in_order(items, i, t.after(i)) == items(i) + in_order(items, i + 1, t.after(i)));
    assert(Seq::<ReferenceView>::empty() + items(i) =~= items(i) + Seq::<ReferenceView>::empty());
}

proof fn inherits_of_siblings(t: Syntax, file: Seq<char>, lo: int, hi: int)
    requires
        t.nested(),
        t.closed_range(lo, hi),
    ensures
        inherits_in(t, file, lo, hi) == in_order(inherits_of_nodes(t, file), lo, hi),
    decreases t.left(lo), 1nat,
{
    if lo < hi {
        let items = inherits_of_nodes(t, file);
        inherits_in_document_order(t, file, lo);
        inherits_of_siblings(t, file, t.after(lo), hi);
        in_order_split(items, lo, t.after(lo), hi);
    }
}

// ── Imports ──────────────────────────────────────────────────────────────────

/// The import of node `i`: the last part of its path, from what stands before
/// it. One with a wildcard names nothing.
pub open spec fn import_of(t: Syntax, file: Seq<char>, module: Seq<char>, i: int) -> Seq<
    ReferenceView,
> {
    match name_in(t, i + 1, t.after(i)) {
        Some(n) => if t.kind(i) != "import"@ || t.text(i).contains('*') {
            Seq::empty()
        } else {
            let path = t.text(n);
            let from_path = if last_index(path, '.', path.len() as int) < 0 {
                Seq::empty()
            } else {
                before_last(path, '.')
            };
            seq![import_at(t, file, n, after_last(path, '.'), module, from_path)]
        },
        None => Seq::empty(),
    }
}

/// Adds the import of node `i`.
fn push_import(tree: &SyntaxTree, i: usize, file: &str, module: &str, out: &mut Vec<Reference>)
    requires
        i < tree@.len(),
    ensures
        views(final(out)@) == views(old(out)@) + import_of(tree@, file@, module@, i as int),
{
    if !tree.is(i, "import") || contains_char(tree.text(i), '*') {
        return ;
    }
    if let Some(n) = find_name(tree, i) {
        let path = tree.text(n);
        proof {
            reveal_strlit("");
            assert(""@ =~= Seq::<char>::empty());
        }
        let from_path = if find_last(path, '.').is_none() {
            ""
        } else {
            before_last_text(path, '.')
        };
        push_import_ref(out, tree, file, n, after_last_text(path, '.'), module, from_path);
    }
}

/// The imports in the subtree of node `i`.
pub open spec fn imports_at(
    t: Syntax,
    file: Seq<char>,
    module: Seq<char>,
    i: int,
) -> Seq<ReferenceView>
    decreases t.left(i), 0nat,
{
    if !t.has(i) {
        Seq::empty()
    } else if t.kind(i) == "import"@ {
        import_of(t, file, module, i)
    } else {
        import_of(t, file, module, i) + imports_in(t, file, module, i + 1, t.after(i))
    }
}

/// The imports in the subtrees of the nodes `lo..hi`.
pub open spec fn imports_in(
    t: Syntax,
    file: Seq<char>,
    module: Seq<char>,
    lo: int,
    hi: int,
) -> Seq<ReferenceView>
    decreases t.left(lo), 1nat,
{
    if lo >= hi || !t.has(lo) {
        Seq::empty()
    } else {
        imports_at(t, file, module, lo) + imports_in(t, file, module, t.next(lo, hi), hi)
    }
}

/// Adds the imports in the subtree of node `i`.
fn collect_imports(tree: &SyntaxTree, i: usize, file: &str, module: &str, out: &mut Vec<Reference>)
    requires
        i < tree@.len(),
    ensures
        views(final(out)@) == views(old(out)@) + imports_at(tree@, file@, module@, i as int),
    decreases tree@.left(i as int),
{
    push_import(tree, i, file, module, out);
    if tree.is(i, "import") {
        return ;
    }
    let hi: usize = tree.after(i);
    let mut lo: usize = i + 1;
    while lo < hi
        invariant
            i < lo,
            i < tree@.len(),
            hi == tree@.after(i as int),
            hi <= tree@.len(),
            views(out@) + imports_in(tree@, file@, module@, lo as int, hi as int)
                == views(old(out)@)
                + imports_at(tree@, file@, module@, i as int),
        decreases hi - lo,
    {
        collect_imports(tree, lo, file, module, out);
        lo = tree.next(lo, hi);
    }
}

/// The imports of node `i` itself, for each `i`.
pub open spec fn imports_of_nodes(
    t: Syntax,
    file: Seq<char>,
    module: Seq<char>,
) -> spec_fn(int) -> Seq<ReferenceView> {
    |j: int| import_of(t, file, module, j)
}

/// The imports in a subtree are those of its nodes, in document order: none is missed
/// and none is reported twice.
pub proof fn imports_in_document_order(t: Syntax, file: Seq<char>, module: Seq<char>, i: int)
    requires
        t.nested(),
        t.has(i),
        forall|j: int, k: int|
            t.has(j) && t.kind(j) == "import"@ && j < k < #[trigger] t.after(j)
                ==> #[trigger] t.kind(k) != "import"@,
    ensures
        imports_at(t, file, module, i) == in_order(
            imports_of_nodes(t, file, module),
            i,
            t.after(i),
        ),
    decreases t.left(i), 0nat,
{
    let items = imports_of_nodes(t, file, module);
    if t.kind(i) == "import"@ {
        in_order_none(items, i + 1, t.after(i));
    } else {
        imports_of_siblings(t, file, module, i + 1, t.after(i));
    }
    assert(in_order(items, i, t.after(i)) == items(i) + in_order(items, i + 1, t.after(i)));
    assert(Seq::<ReferenceView>::empty() + items(i) =~= items(i) + Seq::<ReferenceView>::empty());
}

proof fn imports_of_siblings(t: Syntax, file: Seq<char>, module: Seq<char>, lo: int, hi: int)
    requires
        t.nested(),
        t.closed_range(lo, hi),
        forall|j: int, k: int|
            t.has(j) && t.kind(j) == "import"@ && j < k < #[trigger] t.after(j)
                ==> #[trigger] t.kind(k) != "import"@,
    ensures
        imports_in(t, file, module, lo, hi) == in_order(imports_of_nodes(t, file, module), lo, hi),
    decreases t.left(lo), 1nat,
{
    if lo < hi {
        let items = imports_of_nodes(t, file, module);
        imports_in_document_order(t, file, module, lo);
        imports_of_siblings(t, file, module, t.after(lo), hi);
        in_order_split(items, lo, t.after(lo), hi);
    }
}

// ── Facts ────────────────────────────────────────────────────────────────────

/// The calls: names that are called, with what they are members of.
pub const CALL_QUERY: &'static str = r#"
[
  (call_expression (identifier) @callee)
  (call_expression (navigation_expression (_) @qualifier (identifier) @callee))
]
"#;

/// The calls of members of `this`. They are among those of [`CALL_QUERY`], so a
/// query of its own keeps each call from being reported twice.
pub const SELF_CALL_QUERY: &'static str = r#"
(call_expression (navigation_expression (this_expression) (identifier) @callee))
"#;

/// The references of a Kotlin file, without their scopes.
pub open spec fn references_of(
    t: Syntax,
    file: Seq<char>,
    module: Seq<char>,
    found: Seq<Seq<CaptureView>>,
    on_self: Seq<Seq<CaptureView>>,
) -> Seq<ReferenceView> {
    calls_marked(t.source, file, found, on_self) + inherits_at(t, file, 0)
        + imports_at(t, file, module, 0) + type_refs_at(t, file, 0) + reads_at(t, file, 0)
        + writes_at(t, file, 0)
}

/// The facts of a Kotlin file with the nodes `t`, where `found` and `on_self`
/// are the matches of the queries on calls.
pub open spec fn facts_of(
    t: Syntax,
    file: Seq<char>,
    found: Seq<Seq<CaptureView>>,
    on_self: Seq<Seq<CaptureView>>,
) -> FileFactsView {
    let source_len = byte_count(t.source) as int;
    let ns = namespaces_of(t, file);
    let defs = decls_in(
        Ctx { tree: t, file, lang: Language::Kotlin },
        namespace_steps(ns),
        false,
        1,
        t.after(0),
    );
    let module = module_view(Language::Kotlin, ns, file, source_len);
    let scopes = scopes_of(t, source_len);
    let references = all_scoped(
        scopes,
        references_of(t, file, scip_text(module.id), found, on_self),
    );
    FileFactsView {
        file,
        lang: Language::Kotlin.tag(),
        symbols: defs + seq![module],
        references,
        scopes,
        bindings: bindings_at(t, scopes, 0) + definitions_bound(defs) + imports_bound(
            scopes,
            references,
        ),
        ffi_exports: Seq::empty(),
    }
}

/// The facts of a Kotlin file, from its nodes and the matches of the queries on
/// calls.
pub fn file_facts(
    tree: &SyntaxTree,
    file: &str,
    found: &Vec<Match>,
    on_self: &Vec<Match>,
) -> (facts: FileFacts)
    ensures
        facts@ == facts_of(tree@, file@, views(found@), views(on_self@)),
        coherent(facts@, byte_count(tree@.source) as int),
        imports_are_bound(facts@),
{
    let source_len: usize = byte_length(tree.source());
    let namespaces = kotlin_namespaces(tree, file);
    let ctx = ExtractCtx { tree, file, lang: Language::Kotlin };
    let defs = collect_symbols(&ctx, &namespaces);
    let def_bindings = definition_bindings(&defs);
    let ghost own = views(defs@);
    let mut symbols = defs;
    let module = module_symbol(Language::Kotlin, namespaces.as_slice(), file, source_len);
    let module_id = module.id.to_scip_string();
    put(&mut symbols, module);
    let mut references = collect_call_references(tree.source(), file, found);
    mark_self_receiver_calls(&mut references, on_self);
    if tree.len() > 0 {
        collect_inheritance(tree, 0, file, &mut references);
        collect_imports(tree, 0, file, module_id.as_str(), &mut references);
        collect_type_references(tree, 0, file, &mut references);
        collect_read_references(tree, 0, file, &mut references);
        collect_write_references(tree, 0, file, &mut references);
    }
    assert(views(references@)
        =~= references_of(tree@, file@, module_id@, views(found@), views(on_self@)));
    let scopes = collect_scopes(tree, source_len);
    let ghost plain = views(references@);
    attach_reference_scopes(&mut references, &scopes);
    let mut bindings = collect_bindings(tree, &scopes);
    let ghost locals = views(bindings@);
    put_all(&mut bindings, def_bindings);
    put_all(&mut bindings, import_bindings(&references, &scopes));
    proof {
        views_empty::<FfiExport>();
    }
    let facts = FileFacts {
        file: file.to_owned(),
        lang: Language::Kotlin.as_str().to_owned(),
        symbols,
        references,
        scopes,
        bindings,
        ffi_exports: Vec::new(),
    };
    proof {
        let imports = imports_bound(facts@.scopes, facts@.references);
        facts_are_coherent(facts@, own, plain, locals, imports, source_len as int);
        facts_bind_imports(facts@, locals + definitions_bound(own));
    }
    facts
}

/// Reads Kotlin files.
pub struct KotlinExtractor;

impl Extractor for KotlinExtractor {
    open spec fn language(&self) -> Language {
        Language::Kotlin
    }

    open spec fn facts(&self, tree: tree_sitter::Tree, file: Seq<char>) -> Result<
        FileFactsView,
        ErrorView,
    > {
        match (
            answer_to(tree, CALL_QUERY@),
            answer_to(tree, SELF_CALL_QUERY@),
        ) {
            (Some(found), Some(on_self)) => Ok(
                facts_of(syntax_of(tree), file, found, on_self),
            ),
            _ => Err(ErrorView::Query { path: file }),
        }
    }

    fn lang(&self) -> (lang: Language) {
        Language::Kotlin
    }

    fn extract_facts(&self, source: &str, file: &str) -> (result: Result<
        FileFacts,
        CodegraphError,
    >) {
        let parsed = match parse(Language::Kotlin, source) {
            Some(parsed) => parsed,
            None => {
                return Err(CodegraphError::Parse { path: file.to_owned() });
            },
        };
        if let Some(found) = parsed.query(CALL_QUERY) {
            if let Some(on_self) = parsed.query(SELF_CALL_QUERY) {
                return Ok(file_facts(parsed.syntax(), file, &found, &on_self));
            }
        }
        Err(CodegraphError::Query { path: file.to_owned() })
    }
}

} // verus!
