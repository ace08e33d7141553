//! The facts of Dart files.

use crate::error::{CodegraphError, ErrorView};
use crate::graph::types::{
    Binding, BindingKind, BindingView, ByteSpan, FfiExport, FileFacts, FileFactsView, RefRole,
    Reference, ReferenceView, Scope, ScopeId, ScopeKind, Symbol, SymbolKind, SymbolView,
    TypeRefContext, Visibility,
};
use crate::items::{in_order, in_order_none, in_order_split, put, put_all, views, views_empty};
use crate::lang::Language;
use crate::parse::{answer_to, parse, syntax_of, CaptureView, Match};
use crate::symbol::{
    copy_descriptors, method_view, namespace_steps, scip_text, Descriptor, DescriptorView,
};
use crate::syntax::{group_child_bounds, opt_index, Syntax, SyntaxTree};
use crate::text::{
    byte_count, byte_length, has_prefix, is_empty, opt_text, same, segments, simple_name,
    simple_type_name, split_segments, starts_with, strip_prefix, strip_quotes, strip_suffix,
    unquoted_by, without_prefix, without_suffix,
};
use vstd::prelude::*;

use super::{
    all_scoped, are_file_scopes, at_file_level, attach_reference_scopes, calls_marked, coherent,
    collect_call_references, define, defined_at, definition_bindings, definitions_bound, extends,
    facts_are_coherent, facts_bind_imports, import_at, import_bindings, imports_are_bound,
    imports_bound, is_file_level, is_reportable, is_scope_tree, local_binding,
    mark_self_receiver_calls, module_scope, module_symbol, module_view, namespace_descriptors,
    nests_under, node_span, push_import_ref, push_ref, push_scope, push_type_ref,
    push_typed_binding, reference_at, reportable, scopes_nest, span_at, spans_nest,
    type_reference_at, Ctx, ExtractCtx, Extractor,
};

verus! {

broadcast use group_child_bounds;

// ── Namespaces ───────────────────────────────────────────────────────────────

/// The namespaces of a Dart file: the pieces of its path without `.dart` at the
/// end and without the root of the sources in front.
pub open spec fn namespaces_of(file: Seq<char>) -> Seq<Seq<char>> {
    let stem = without_suffix(file, ".dart"@);
    let path = if has_prefix(stem, "lib/"@) {
        without_prefix(stem, "lib/"@)
    } else {
        without_prefix(stem, "src/"@)
    };
    segments(path, '/')
}

/// The namespaces of a Dart file.
pub fn dart_namespaces(file: &str) -> (namespaces: Vec<String>)
    ensures
        views(namespaces@) == namespaces_of(file@),
{
    let stem = strip_suffix(file, ".dart");
    let path = if starts_with(stem, "lib/") {
        strip_prefix(stem, "lib/")
    } else {
        strip_prefix(stem, "src/")
    };
    split_segments(path, '/')
}

// ── Definitions ──────────────────────────────────────────────────────────────

/// Who can see a Dart name: its library where it starts with an underscore, else
/// everyone.
pub open spec fn visibility_of(name: Seq<char>) -> Visibility {
    if has_prefix(name, "_"@) {
        Visibility::Internal
    } else {
        Visibility::Public
    }
}

/// Who can see a Dart name.
pub fn dart_visibility(name: &str) -> (visibility: Visibility)
    ensures
        visibility == visibility_of(name@),
{
    if starts_with(name, "_") {
        Visibility::Internal
    } else {
        Visibility::Public
    }
}

/// A definition in a Dart file: who can see it goes by its name.
pub open spec fn definition(
    c: Ctx,
    prefix: Seq<DescriptorView>,
    i: int,
    leaf: DescriptorView,
    kind: SymbolKind,
    stops: Seq<char>,
) -> SymbolView {
    defined_at(c, prefix, i, leaf.name(), kind, visibility_of(leaf.name()), leaf, stops)
}

/// Adds a definition.
fn push_symbol(
    out: &mut Vec<Symbol>,
    ctx: &ExtractCtx<'_>,
    i: usize,
    prefix: &Vec<Descriptor>,
    leaf: Descriptor,
    kind: SymbolKind,
    stops: &str,
)
    ensures
        views(final(out)@) == views(old(out)@) + seq![
            definition(ctx@, views(prefix@), i as int, leaf@, kind, stops@),
        ],
{
    let name = leaf.name().to_owned();
    let visibility = dart_visibility(name.as_str());
    let symbol = define(ctx, prefix, i, name, kind, visibility, leaf, stops);
    put(out, symbol);
}

/// The node with the name of the variable that the item `i` of a list introduces.
pub open spec fn variable_name(t: Syntax, i: int) -> Option<int> {
    if t.kind(i) == "initialized_identifier"@ || t.kind(i) == "static_final_declaration"@ {
        t.child(i, "name"@)
    } else if t.kind(i) == "identifier"@ {
        Some(i)
    } else {
        None
    }
}

/// The node with the name of the variable that the item `i` of a list introduces.
fn find_variable_name(tree: &SyntaxTree, i: usize) -> (name: Option<usize>)
    requires
        i < tree@.len(),
    ensures
        opt_index(name) == variable_name(tree@, i as int),
{
    if tree.is(i, "initialized_identifier") || tree.is(i, "static_final_declaration") {
        tree.child(i, "name")
    } else if tree.is(i, "identifier") {
        Some(i)
    } else {
        None
    }
}

/// The variable that the item `i` of the declaration `owner` introduces.
pub open spec fn variable_symbols(c: Ctx, prefix: Seq<DescriptorView>, owner: int, i: int) -> Seq<
    SymbolView,
> {
    match variable_name(c.tree, i) {
        Some(n) => seq![
            definition(
                c,
                prefix,
                owner,
                DescriptorView::Term(c.tree.text(n)),
                SymbolKind::Static,
                "{;"@,
            ),
        ],
        None => Seq::empty(),
    }
}

/// Whether node `i` is a list of variables.
pub open spec fn is_variable_list(t: Syntax, i: int) -> bool {
    t.kind(i) == "initialized_identifier_list"@ || t.kind(i) == "static_final_declaration_list"@
        || t.kind(i) == "identifier_list"@
}

/// The variables that the items `lo..hi` of the declaration `owner` introduce.
pub open spec fn variables_in(
    c: Ctx,
    prefix: Seq<DescriptorView>,
    owner: int,
    lo: int,
    hi: int,
) -> Seq<SymbolView>
    decreases hi - lo,
{
    if lo >= hi {
        Seq::empty()
    } else {
        variable_symbols(c, prefix, owner, lo)
            + variables_in(c, prefix, owner, c.tree.next(lo, hi), hi)
    }
}

/// Adds the variables that the items in the list `i` of the declaration `owner`
/// introduce.
fn emit_initialized_identifiers(
    ctx: &ExtractCtx<'_>,
    i: usize,
    prefix: &Vec<Descriptor>,
    owner: usize,
    out: &mut Vec<Symbol>,
)
    requires
        i < ctx.tree@.len(),
    ensures
        views(final(out)@)
            == views(old(out)@)
                + variables_in(
                    ctx@,
                    views(prefix@),
                    owner as int,
                    i + 1,
                    ctx.tree@.after(i as int),
                ),
{
    let tree = ctx.tree;
    let hi: usize = tree.after(i);
    let mut lo: usize = i + 1;
    while lo < hi
        invariant
            i < lo,
            i < tree@.len(),
            tree == ctx.tree,
            hi == tree@.after(i as int),
            hi <= tree@.len(),
            views(out@) + variables_in(ctx@, views(prefix@), owner as int, lo as int, hi as int)
                == views(old(out)@)
                + variables_in(ctx@, views(prefix@), owner as int, i + 1, hi as int),
        decreases hi - lo,
    {
        if let Some(n) = find_variable_name(tree, lo) {
            let leaf = Descriptor::Term(tree.text(n).to_owned());
            push_symbol(out, ctx, owner, prefix, leaf, SymbolKind::Static, "{;");
        }
        lo = tree.next(lo, hi);
    }
}

/// The variables that the lists among the parts `lo..hi` of the declaration
/// `owner` introduce.
pub open spec fn variable_lists_in(
    c: Ctx,
    prefix: Seq<DescriptorView>,
    owner: int,
    lo: int,
    hi: int,
) -> Seq<SymbolView>
    decreases hi - lo,
{
    if lo >= hi {
        Seq::empty()
    } else {
        (if is_variable_list(c.tree, lo) {
            variables_in(c, prefix, owner, lo + 1, c.tree.after(lo))
        } else {
            Seq::empty()
        }) + variable_lists_in(c, prefix, owner, c.tree.next(lo, hi), hi)
    }
}

/// Adds the variables that the lists under node `i` of the declaration `owner`
/// introduce.
fn collect_variable_lists(
    ctx: &ExtractCtx<'_>,
    i: usize,
    prefix: &Vec<Descriptor>,
    owner: usize,
    out: &mut Vec<Symbol>,
)
    requires
        i < ctx.tree@.len(),
    ensures
        views(final(out)@)
            == views(old(out)@)
                + variable_lists_in(
                    ctx@,
                    views(prefix@),
                    owner as int,
                    i + 1,
                    ctx.tree@.after(i as int),
                ),
{
    let tree = ctx.tree;
    let hi: usize = tree.after(i);
    let mut lo: usize = i + 1;
    while lo < hi
        invariant
            i < lo,
            i < tree@.len(),
            tree == ctx.tree,
            hi == tree@.after(i as int),
            hi <= tree@.len(),
            views(out@)
                + variable_lists_in(ctx@, views(prefix@), owner as int, lo as int, hi as int)
                == views(old(out)@)
                + variable_lists_in(ctx@, views(prefix@), owner as int, i + 1, hi as int),
        decreases hi - lo,
    {
        if tree.is(lo, "initialized_identifier_list") || tree.is(
            lo,
            "static_final_declaration_list",
        ) || tree.is(lo, "identifier_list") {
            emit_initialized_identifiers(ctx, lo, prefix, owner, out);
        }
        lo = tree.next(lo, hi);
    }
}

/// Adds the variables that the declaration `i` at the top of a file introduces.
fn collect_top_level_vars(
    ctx: &ExtractCtx<'_>,
    i: usize,
    prefix: &Vec<Descriptor>,
    out: &mut Vec<Symbol>,
)
    requires
        i < ctx.tree@.len(),
    ensures
        views(final(out)@) == views(old(out)@) + variable_lists_in(
            ctx@,
            views(prefix@),
            i as int,
            i + 1,
            ctx.tree@.after(i as int),
        ),
{
    collect_variable_lists(ctx, i, prefix, i, out);
}

/// The method or constructor `name` that node `i` declares.
pub open spec fn method_symbols(
    c: Ctx,
    prefix: Seq<DescriptorView>,
    name: Option<Seq<char>>,
    i: int,
) -> Seq<SymbolView> {
    match name {
        Some(name) => seq![
            definition(c, prefix, i, method_view(name), SymbolKind::Method, "{;="@),
        ],
        None => Seq::empty(),
    }
}

/// Adds the method or constructor `name` that node `i` declares.
fn emit_method(
    name: String,
    i: usize,
    ctx: &ExtractCtx<'_>,
    prefix: &Vec<Descriptor>,
    out: &mut Vec<Symbol>,
)
    ensures
        views(final(out)@) == views(old(out)@) + method_symbols(
            ctx@,
            views(prefix@),
            Some(name@),
            i as int,
        ),
{
    push_symbol(out, ctx, i, prefix, Descriptor::method(name), SymbolKind::Method, "{;=");
}

/// Whether node `i` is the signature of a method or a constructor.
pub open spec fn is_signature(t: Syntax, i: int) -> bool {
    t.kind(i) == "function_signature"@ || t.kind(i) == "getter_signature"@ || t.kind(i)
        == "setter_signature"@ || t.kind(i) == "operator_signature"@ || t.kind(i)
        == "constructor_signature"@ || t.kind(i) == "constant_constructor_signature"@ || t.kind(i)
        == "factory_constructor_signature"@ || t.kind(i)
        == "redirecting_factory_constructor_signature"@
}

/// Whether node `i` is the signature of a method or a constructor.
fn is_method_signature(tree: &SyntaxTree, i: usize) -> (b: bool)
    ensures
        b == is_signature(tree@, i as int),
{
    tree.is(i, "function_signature") || tree.is(i, "getter_signature") || tree.is(
        i,
        "setter_signature",
    ) || tree.is(i, "operator_signature") || tree.is(i, "constructor_signature") || tree.is(
        i,
        "constant_constructor_signature",
    ) || tree.is(i, "factory_constructor_signature") || tree.is(
        i,
        "redirecting_factory_constructor_signature",
    )
}

/// The name in the signature `i`. That of an operator is the operator, that of a
/// constructor is the name of its class.
pub open spec fn signature_name(t: Syntax, i: int) -> Option<Seq<char>> {
    if t.kind(i) == "operator_signature"@ {
        t.field_text(i, "operator"@)
    } else {
        t.field_text(i, "name"@)
    }
}

/// The name in the signature `i`.
fn read_signature_name(tree: &SyntaxTree, i: usize) -> (name: Option<String>)
    requires
        i < tree@.len(),
    ensures
        opt_text(name) == signature_name(tree@, i as int),
{
    if tree.is(i, "operator_signature") {
        tree.field_text(i, "operator")
    } else {
        tree.field_text(i, "name")
    }
}

/// The name in the first signature among the nodes `lo..hi` that has one.
pub open spec fn signed_name_in(t: Syntax, lo: int, hi: int) -> Option<Seq<char>>
    decreases hi - lo,
{
    if lo >= hi {
        None
    } else if is_signature(t, lo) && signature_name(t, lo) is Some {
        signature_name(t, lo)
    } else {
        signed_name_in(t, t.next(lo, hi), hi)
    }
}

/// The name of the method `i`: that in the signature which its own signature holds,
/// or that in its own signature.
pub open spec fn method_name(t: Syntax, i: int) -> Option<Seq<char>> {
    match t.child(i, "signature"@) {
        Some(s) => match signed_name_in(t, s + 1, t.after(s)) {
            Some(name) => Some(name),
            None => t.field_text(s, "name"@),
        },
        None => None,
    }
}

/// The name of the method `i`.
fn read_method_name(tree: &SyntaxTree, i: usize) -> (name: Option<String>)
    requires
        i < tree@.len(),
    ensures
        opt_text(name) == method_name(tree@, i as int),
{
    let s: usize = match tree.child(i, "signature") {
        Some(s) => s,
        None => {
            return None;
        },
    };
    let hi: usize = tree.after(s);
    let mut lo: usize = s + 1;
    while lo < hi
        invariant
            s < lo,
            tree@.child(i as int, "signature"@) == Some(s as int),
            hi == tree@.after(s as int),
            hi <= tree@.len(),
            signed_name_in(tree@, lo as int, hi as int) == signed_name_in(
                tree@,
                s + 1,
                hi as int,
            ),
        decreases hi - lo,
    {
        if is_method_signature(tree, lo) {
            if let Some(name) = read_signature_name(tree, lo) {
                return Some(name);
            }
        }
        lo = tree.next(lo, hi);
    }
    tree.field_text(s, "name")
}

/// The methods and constructors that the signatures among the parts `lo..hi` of a
/// declaration declare.
pub open spec fn signed_in(c: Ctx, prefix: Seq<DescriptorView>, lo: int, hi: int) -> Seq<SymbolView>
    decreases hi - lo,
{
    if lo >= hi {
        Seq::empty()
    } else {
        (if is_signature(c.tree, lo) {
            method_symbols(c, prefix, signature_name(c.tree, lo), lo)
        } else {
            Seq::empty()
        }) + signed_in(c, prefix, c.tree.next(lo, hi), hi)
    }
}

/// Adds the methods and constructors that the declaration `i` declares.
fn collect_signed(ctx: &ExtractCtx<'_>, i: usize, prefix: &Vec<Descriptor>, out: &mut Vec<Symbol>)
    requires
        i < ctx.tree@.len(),
    ensures
        views(final(out)@)
            == views(old(out)@) + signed_in(ctx@, views(prefix@), i + 1, ctx.tree@.after(i as int)),
{
    let tree = ctx.tree;
    let hi: usize = tree.after(i);
    let mut lo: usize = i + 1;
    while lo < hi
        invariant
            i < lo,
            i < tree@.len(),
            tree == ctx.tree,
            hi == tree@.after(i as int),
            hi <= tree@.len(),
            views(out@) + signed_in(ctx@, views(prefix@), lo as int, hi as int) == views(old(out)@)
                + signed_in(ctx@, views(prefix@), i + 1, hi as int),
        decreases hi - lo,
    {
        if is_method_signature(tree, lo) {
            if let Some(name) = read_signature_name(tree, lo) {
                emit_method(name, lo, ctx, prefix, out);
            }
        }
        lo = tree.next(lo, hi);
    }
}

/// What the member `i` of a type declares: a method, a constructor or fields.
pub open spec fn member_symbols(c: Ctx, prefix: Seq<DescriptorView>, i: int) -> Seq<SymbolView> {
    let t = c.tree;
    if t.kind(i) == "method_declaration"@ {
        method_symbols(c, prefix, method_name(t, i), i)
    } else if t.kind(i) == "declaration"@ {
        signed_in(c, prefix, i + 1, t.after(i)) + variable_lists_in(
            c,
            prefix,
            i,
            i + 1,
            t.after(i),
        )
    } else {
        Seq::empty()
    }
}

/// What the parts `lo..hi` of a member declare.
pub open spec fn wrapped_in(
    c: Ctx,
    prefix: Seq<DescriptorView>,
    lo: int,
    hi: int,
) -> Seq<SymbolView>
    decreases hi - lo,
{
    if lo >= hi {
        Seq::empty()
    } else {
        member_symbols(c, prefix, lo) + wrapped_in(c, prefix, c.tree.next(lo, hi), hi)
    }
}

/// Adds what the parts of the member `i` declare.
fn collect_wrapped(ctx: &ExtractCtx<'_>, i: usize, prefix: &Vec<Descriptor>, out: &mut Vec<Symbol>)
    requires
        i < ctx.tree@.len(),
    ensures
        views(final(out)@)
            == views(old(out)@)
                + wrapped_in(ctx@, views(prefix@), i + 1, ctx.tree@.after(i as int)),
{
    let tree = ctx.tree;
    let hi: usize = tree.after(i);
    let mut lo: usize = i + 1;
    while lo < hi
        invariant
            i < lo,
            i < tree@.len(),
            tree == ctx.tree,
            hi == tree@.after(i as int),
            hi <= tree@.len(),
            views(out@) + wrapped_in(ctx@, views(prefix@), lo as int, hi as int) == views(old(out)@)
                + wrapped_in(ctx@, views(prefix@), i + 1, hi as int),
        decreases hi - lo,
    {
        if tree.is(lo, "method_declaration") {
            if let Some(name) = read_method_name(tree, lo) {
                emit_method(name, lo, ctx, prefix, out);
            }
        } else if tree.is(lo, "declaration") {
            collect_signed(ctx, lo, prefix, out);
            collect_variable_lists(ctx, lo, prefix, lo, out);
        }
        lo = tree.next(lo, hi);
    }
}

/// What the members among `lo..hi` of a type declare.
pub open spec fn members_in(
    c: Ctx,
    prefix: Seq<DescriptorView>,
    lo: int,
    hi: int,
) -> Seq<SymbolView>
    decreases hi - lo,
{
    if lo >= hi {
        Seq::empty()
    } else {
        (if c.tree.kind(lo) == "class_member"@ {
            wrapped_in(c, prefix, lo + 1, c.tree.after(lo))
        } else {
            Seq::empty()
        }) + members_in(c, prefix, c.tree.next(lo, hi), hi)
    }
}

/// Adds what the members in the body `i` of a type declare.
fn collect_class_members(
    ctx: &ExtractCtx<'_>,
    i: usize,
    prefix: &Vec<Descriptor>,
    out: &mut Vec<Symbol>,
)
    requires
        i < ctx.tree@.len(),
    ensures
        views(final(out)@)
            == views(old(out)@)
                + members_in(ctx@, views(prefix@), i + 1, ctx.tree@.after(i as int)),
{
    let tree = ctx.tree;
    let hi: usize = tree.after(i);
    let mut lo: usize = i + 1;
    while lo < hi
        invariant
            i < lo,
            i < tree@.len(),
            tree == ctx.tree,
            hi == tree@.after(i as int),
            hi <= tree@.len(),
            views(out@) + members_in(ctx@, views(prefix@), lo as int, hi as int) == views(old(out)@)
                + members_in(ctx@, views(prefix@), i + 1, hi as int),
        decreases hi - lo,
    {
        if tree.is(lo, "class_member") {
            collect_wrapped(ctx, lo, prefix, out);
        }
        lo = tree.next(lo, hi);
    }
}

/// The constants among the nodes `lo..hi` of an enum.
pub open spec fn constants_in(
    c: Ctx,
    prefix: Seq<DescriptorView>,
    lo: int,
    hi: int,
) -> Seq<SymbolView>
    decreases hi - lo,
{
    if lo >= hi {
        Seq::empty()
    } else {
        (match c.tree.field_text(lo, "name"@) {
            Some(name) => if c.tree.kind(lo) == "enum_constant"@ {
                seq![
                    definition(
                        c,
                        prefix,
                        lo,
                        DescriptorView::Term(name),
                        SymbolKind::Const,
                        "{;,"@,
                    ),
                ]
            } else {
                Seq::empty()
            },
            None => Seq::empty(),
        }) + constants_in(c, prefix, c.tree.next(lo, hi), hi)
    }
}

/// Adds the constants in the body `i` of an enum.
fn collect_constants(
    ctx: &ExtractCtx<'_>,
    i: usize,
    prefix: &Vec<Descriptor>,
    out: &mut Vec<Symbol>,
)
    requires
        i < ctx.tree@.len(),
    ensures
        views(final(out)@)
            == views(old(out)@)
                + constants_in(ctx@, views(prefix@), i + 1, ctx.tree@.after(i as int)),
{
    let tree = ctx.tree;
    let hi: usize = tree.after(i);
    let mut lo: usize = i + 1;
    while lo < hi
        invariant
            i < lo,
            i < tree@.len(),
            tree == ctx.tree,
            hi == tree@.after(i as int),
            hi <= tree@.len(),
            views(out@) + constants_in(ctx@, views(prefix@), lo as int, hi as int)
                == views(old(out)@)
                + constants_in(ctx@, views(prefix@), i + 1, hi as int),
        decreases hi - lo,
    {
        if tree.is(lo, "enum_constant") {
            if let Some(name) = tree.field_text(lo, "name") {
                let leaf = Descriptor::Term(name);
                push_symbol(out, ctx, lo, prefix, leaf, SymbolKind::Const, "{;,");
            }
        }
        lo = tree.next(lo, hi);
    }
}

/// The name of the type that node `i` declares. That of a class which only applies
/// mixins stands one level deeper.
pub open spec fn name_of_type(t: Syntax, i: int) -> Option<Seq<char>> {
    match t.child_of_kind(i, "mixin_application_class"@) {
        Some(a) => match t.child_of_kind(a, "identifier"@) {
            Some(n) => Some(t.text(n)),
            None => None,
        },
        None => t.field_text(i, "name"@),
    }
}

/// The name of the type that node `i` declares.
fn read_name_of_type(tree: &SyntaxTree, i: usize) -> (name: Option<String>)
    requires
        i < tree@.len(),
    ensures
        opt_text(name) == name_of_type(tree@, i as int),
{
    match tree.child_of_kind(i, "mixin_application_class") {
        Some(a) => match tree.child_of_kind(a, "identifier") {
            Some(n) => Some(tree.text(n).to_owned()),
            None => None,
        },
        None => tree.field_text(i, "name"),
    }
}

/// The type that node `i` declares, with its members. Those of an enum stand behind
/// its constants.
pub open spec fn type_symbols(c: Ctx, prefix: Seq<DescriptorView>, kind: SymbolKind, i: int) -> Seq<
    SymbolView,
> {
    let t = c.tree;
    match name_of_type(t, i) {
        Some(name) => seq![
            definition(c, prefix, i, DescriptorView::Type(name), kind, "{;"@),
        ] + match t.child(i, "body"@) {
            Some(body) => {
                let inner = prefix + seq![DescriptorView::Type(name)];
                constants_in(c, inner, body + 1, t.after(body)) + members_in(
                    c,
                    inner,
                    body + 1,
                    t.after(body),
                )
            },
            None => Seq::empty(),
        },
        None => Seq::empty(),
    }
}

/// Adds the type that node `i` declares, with its members.
fn collect_class(
    ctx: &ExtractCtx<'_>,
    i: usize,
    prefix: &Vec<Descriptor>,
    kind: SymbolKind,
    out: &mut Vec<Symbol>,
)
    requires
        i < ctx.tree@.len(),
    ensures
        views(final(out)@) == views(old(out)@) + type_symbols(
            ctx@,
            views(prefix@),
            kind,
            i as int,
        ),
{
    let tree = ctx.tree;
    if let Some(name) = read_name_of_type(tree, i) {
        let mut inner = copy_descriptors(prefix);
        put(&mut inner, Descriptor::Type(name.as_str().to_owned()));
        push_symbol(out, ctx, i, prefix, Descriptor::Type(name), kind, "{;");
        if let Some(body) = tree.child(i, "body") {
            collect_constants(ctx, body, &inner, out);
            collect_class_members(ctx, body, &inner, out);
        }
    }
}

/// Adds the mixin that node `i` declares, with its members: it is like a trait.
fn collect_mixin(
    ctx: &ExtractCtx<'_>,
    i: usize,
    prefix: &Vec<Descriptor>,
    out: &mut Vec<Symbol>,
)
    requires
        i < ctx.tree@.len(),
    ensures
        views(final(out)@) == views(old(out)@) + type_symbols(
            ctx@,
            views(prefix@),
            SymbolKind::Trait,
            i as int,
        ),
{
    collect_class(ctx, i, prefix, SymbolKind::Trait, out);
}

/// Adds the enum that node `i` declares, with its constants.
fn collect_enum(
    ctx: &ExtractCtx<'_>,
    i: usize,
    prefix: &Vec<Descriptor>,
    out: &mut Vec<Symbol>,
)
    requires
        i < ctx.tree@.len(),
    ensures
        views(final(out)@) == views(old(out)@) + type_symbols(
            ctx@,
            views(prefix@),
            SymbolKind::Enum,
            i as int,
        ),
{
    collect_class(ctx, i, prefix, SymbolKind::Enum, out);
}

/// Adds the extension that node `i` declares, with its members.
fn collect_extension(
    ctx: &ExtractCtx<'_>,
    i: usize,
    prefix: &Vec<Descriptor>,
    out: &mut Vec<Symbol>,
)
    requires
        i < ctx.tree@.len(),
    ensures
        views(final(out)@) == views(old(out)@) + type_symbols(
            ctx@,
            views(prefix@),
            SymbolKind::Class,
            i as int,
        ),
{
    collect_class(ctx, i, prefix, SymbolKind::Class, out);
}

/// The alias that node `i` introduces: its first type name.
pub open spec fn alias_symbols(c: Ctx, prefix: Seq<DescriptorView>, i: int) -> Seq<SymbolView> {
    match c.tree.child_of_kind(i, "type_identifier"@) {
        Some(n) => seq![
            definition(
                c,
                prefix,
                i,
                DescriptorView::Type(c.tree.text(n)),
                SymbolKind::TypeAlias,
                "{;"@,
            ),
        ],
        None => Seq::empty(),
    }
}

/// Adds the alias that node `i` introduces.
fn collect_type_alias(
    ctx: &ExtractCtx<'_>,
    i: usize,
    prefix: &Vec<Descriptor>,
    out: &mut Vec<Symbol>,
)
    requires
        i < ctx.tree@.len(),
    ensures
        views(final(out)@) == views(old(out)@) + alias_symbols(ctx@, views(prefix@), i as int),
{
    if let Some(n) = ctx.tree.child_of_kind(i, "type_identifier") {
        let leaf = Descriptor::Type(ctx.tree.text(n).to_owned());
        push_symbol(out, ctx, i, prefix, leaf, SymbolKind::TypeAlias, "{;");
    }
}

/// The function that node `i` at the top of a file declares.
pub open spec fn function_symbols(c: Ctx, prefix: Seq<DescriptorView>, i: int) -> Seq<SymbolView> {
    match c.tree.child(i, "signature"@) {
        Some(s) => match c.tree.field_text(s, "name"@) {
            Some(name) => seq![
                definition(c, prefix, i, method_view(name), SymbolKind::Function, "{;="@),
            ],
            None => Seq::empty(),
        },
        None => Seq::empty(),
    }
}

/// Adds the function that node `i` at the top of a file declares.
fn collect_top_function(
    ctx: &ExtractCtx<'_>,
    i: usize,
    prefix: &Vec<Descriptor>,
    out: &mut Vec<Symbol>,
)
    requires
        i < ctx.tree@.len(),
    ensures
        views(final(out)@) == views(old(out)@) + function_symbols(ctx@, views(prefix@), i as int),
{
    if let Some(s) = ctx.tree.child(i, "signature") {
        if let Some(name) = ctx.tree.field_text(s, "name") {
            let leaf = Descriptor::method(name);
            push_symbol(out, ctx, i, prefix, leaf, SymbolKind::Function, "{;=");
        }
    }
}

/// What the node `i` at the top of a Dart file declares.
pub open spec fn symbols_at(c: Ctx, prefix: Seq<DescriptorView>, i: int) -> Seq<SymbolView> {
    let kind = c.tree.kind(i);
    if kind == "class_declaration"@ {
        type_symbols(c, prefix, SymbolKind::Class, i)
    } else if kind == "mixin_declaration"@ {
        type_symbols(c, prefix, SymbolKind::Trait, i)
    } else if kind == "enum_declaration"@ {
        type_symbols(c, prefix, SymbolKind::Enum, i)
    } else if kind == "extension_declaration"@ {
        type_symbols(c, prefix, SymbolKind::Class, i)
    } else if kind == "type_alias"@ {
        alias_symbols(c, prefix, i)
    } else if kind == "function_declaration"@ || kind == "external_function_declaration"@ {
        function_symbols(c, prefix, i)
    } else if kind == "top_level_variable_declaration"@
        || kind == "external_variable_declaration"@ {
        variable_lists_in(c, prefix, i, i + 1, c.tree.after(i))
    } else {
        Seq::empty()
    }
}

/// What the nodes `lo..hi` at the top of a Dart file declare.
pub open spec fn symbols_in(
    c: Ctx,
    prefix: Seq<DescriptorView>,
    lo: int,
    hi: int,
) -> Seq<SymbolView>
    decreases hi - lo,
{
    if lo >= hi {
        Seq::empty()
    } else {
        symbols_at(c, prefix, lo) + symbols_in(c, prefix, c.tree.next(lo, hi), hi)
    }
}

/// Adds what the children of node `i` declare.
fn collect_top_level(
    ctx: &ExtractCtx<'_>,
    i: usize,
    prefix: &Vec<Descriptor>,
    out: &mut Vec<Symbol>,
)
    requires
        i < ctx.tree@.len(),
    ensures
        views(final(out)@)
            == views(old(out)@)
                + symbols_in(ctx@, views(prefix@), i + 1, ctx.tree@.after(i as int)),
{
    let tree = ctx.tree;
    let hi: usize = tree.after(i);
    let mut lo: usize = i + 1;
    while lo < hi
        invariant
            i < lo,
            i < tree@.len(),
            tree == ctx.tree,
            hi == tree@.after(i as int),
            hi <= tree@.len(),
            views(out@) + symbols_in(ctx@, views(prefix@), lo as int, hi as int) == views(old(out)@)
                + symbols_in(ctx@, views(prefix@), i + 1, hi as int),
        decreases hi - lo,
    {
        if tree.is(lo, "class_declaration") {
            collect_class(ctx, lo, prefix, SymbolKind::Class, out);
        } else if tree.is(lo, "mixin_declaration") {
            collect_mixin(ctx, lo, prefix, out);
        } else if tree.is(lo, "enum_declaration") {
            collect_enum(ctx, lo, prefix, out);
        } else if tree.is(lo, "extension_declaration") {
            collect_extension(ctx, lo, prefix, out);
        } else if tree.is(lo, "type_alias") {
            collect_type_alias(ctx, lo, prefix, out);
        } else if tree.is(lo, "function_declaration") || tree.is(
            lo,
            "external_function_declaration",
        ) {
            collect_top_function(ctx, lo, prefix, out);
        } else if tree.is(lo, "top_level_variable_declaration") || tree.is(
            lo,
            "external_variable_declaration",
        ) {
            collect_top_level_vars(ctx, lo, prefix, out);
        }
        lo = tree.next(lo, hi);
    }
}

/// What a Dart file declares.
fn collect_symbols(ctx: &ExtractCtx<'_>, namespaces: &Vec<String>) -> (out: Vec<Symbol>)
    ensures
        views(out@) == symbols_in(
            ctx@,
            namespace_steps(views(namespaces@)),
            1,
            ctx.tree@.after(0),
        ),
{
    let prefix = namespace_descriptors(namespaces);
    let mut out: Vec<Symbol> = Vec::new();
    proof {
        views_empty::<Symbol>();
    }
    if ctx.tree.len() > 0 {
        collect_top_level(ctx, 0, &prefix, &mut out);
    }
    out
}

// ── Inheritance ──────────────────────────────────────────────────────────────

/// The reference that the type name `i` is.
pub open spec fn type_name_ref(t: Syntax, file: Seq<char>, role: RefRole, i: int) -> Seq<
    ReferenceView,
> {
    if t.kind(i) == "type_identifier"@ {
        seq![reference_at(t, file, i, t.text(i), role)]
    } else {
        Seq::empty()
    }
}

/// The references to type names in the subtree of node `i`.
pub open spec fn type_names_at(
    t: Syntax,
    file: Seq<char>,
    role: RefRole,
    i: int,
) -> Seq<ReferenceView>
    decreases t.left(i), 0nat,
{
    if !t.has(i) {
        Seq::empty()
    } else if t.kind(i) == "type_identifier"@ {
        type_name_ref(t, file, role, i)
    } else {
        type_name_ref(t, file, role, i) + type_names_in(t, file, role, i + 1, t.after(i))
    }
}

/// The references to type names in the subtrees of the nodes `lo..hi`.
pub open spec fn type_names_in(
    t: Syntax,
    file: Seq<char>,
    role: RefRole,
    lo: int,
    hi: int,
) -> Seq<ReferenceView>
    decreases t.left(lo), 1nat,
{
    if lo >= hi || !t.has(lo) {
        Seq::empty()
    } else {
        type_names_at(t, file, role, lo) + type_names_in(t, file, role, t.next(lo, hi), hi)
    }
}

/// Adds the references to type names in the subtree of node `i`.
fn emit_type_identifier_refs(
    tree: &SyntaxTree,
    i: usize,
    file: &str,
    role: RefRole,
    out: &mut Vec<Reference>,
)
    requires
        i < tree@.len(),
    ensures
        views(final(out)@) == views(old(out)@) + type_names_at(tree@, file@, role, i as int),
    decreases tree@.left(i as int),
{
    if tree.is(i, "type_identifier") {
        push_ref(out, tree, file, i, tree.text(i), role);
    }
    if tree.is(i, "type_identifier") {
        return ;
    }
    let hi: usize = tree.after(i);
    let mut lo: usize = i + 1;
    while lo < hi
        invariant
            i < lo,
            i < tree@.len(),
            hi == tree@.after(i as int),
            hi <= tree@.len(),
            views(out@) + type_names_in(tree@, file@, role, lo as int, hi as int)
                == views(old(out)@)
                + type_names_at(tree@, file@, role, i as int),
        decreases hi - lo,
    {
        emit_type_identifier_refs(tree, lo, file, role, out);
        lo = tree.next(lo, hi);
    }
}

/// The references to the types under the field `field` of the declaration `i`.
pub open spec fn bases_under(t: Syntax, file: Seq<char>, field: Seq<char>, i: int) -> Seq<
    ReferenceView,
> {
    match t.child(i, field) {
        Some(types) => type_names_at(t, file, RefRole::IsImplementation, types),
        None => Seq::empty(),
    }
}

/// Adds the references to the types under the field `field` of the declaration
/// `i`.
fn push_bases_under(
    tree: &SyntaxTree,
    i: usize,
    file: &str,
    field: &str,
    out: &mut Vec<Reference>,
)
    requires
        i < tree@.len(),
    ensures
        views(final(out)@) == views(old(out)@) + bases_under(tree@, file@, field@, i as int),
{
    if let Some(types) = tree.child(i, field) {
        emit_type_identifier_refs(tree, types, file, RefRole::IsImplementation, out);
    }
}

/// The references to the types that stand behind `on`, up to the body, among the
/// parts `lo..hi` of a mixin.
pub open spec fn on_types_in(t: Syntax, file: Seq<char>, lo: int, hi: int, seen: bool) -> Seq<
    ReferenceView,
>
    decreases hi - lo,
{
    if lo >= hi {
        Seq::empty()
    } else if t.kind(lo) == "on"@ {
        on_types_in(t, file, t.next(lo, hi), hi, true)
    } else if t.kind(lo) == "type"@ && seen {
        type_names_at(t, file, RefRole::IsImplementation, lo) + on_types_in(
            t,
            file,
            t.next(lo, hi),
            hi,
            seen,
        )
    } else if t.kind(lo) == "class_body"@ {
        Seq::empty()
    } else {
        on_types_in(t, file, t.next(lo, hi), hi, seen)
    }
}

/// Adds the references to the types that stand behind `on` in the mixin `i`.
fn push_on_types(tree: &SyntaxTree, i: usize, file: &str, out: &mut Vec<Reference>)
    requires
        i < tree@.len(),
    ensures
        views(final(out)@) == views(old(out)@) + on_types_in(
            tree@,
            file@,
            i + 1,
            tree@.after(i as int),
            false,
        ),
{
    let mut seen: bool = false;
    let hi: usize = tree.after(i);
    let mut lo: usize = i + 1;
    while lo < hi
        invariant
            i < lo,
            hi == tree@.after(i as int),
            hi <= tree@.len(),
            views(out@) + on_types_in(tree@, file@, lo as int, hi as int, seen) == views(old(out)@)
                + on_types_in(tree@, file@, i + 1, hi as int, false),
        decreases hi - lo,
    {
        if tree.is(lo, "on") {
            seen = true;
        } else if tree.is(lo, "type") && seen {
            emit_type_identifier_refs(tree, lo, file, RefRole::IsImplementation, out);
        } else if tree.is(lo, "class_body") {
            return ;
        }
        lo = tree.next(lo, hi);
    }
}

/// The references to the types that the declaration `i` extends or implements.
pub open spec fn declared_bases(t: Syntax, file: Seq<char>, i: int) -> Seq<ReferenceView> {
    if t.kind(i) == "class_declaration"@ {
        bases_under(t, file, "superclass"@, i) + bases_under(t, file, "interfaces"@, i)
    } else if t.kind(i) == "mixin_declaration"@ {
        on_types_in(t, file, i + 1, t.after(i), false) + bases_under(t, file, "interfaces"@, i)
    } else {
        Seq::empty()
    }
}

/// The references to bases in the subtree of node `i`.
pub open spec fn inherits_at(t: Syntax, file: Seq<char>, i: int) -> Seq<ReferenceView>
    decreases t.left(i), 0nat,
{
    if !t.has(i) {
        Seq::empty()
    } else {
        declared_bases(t, file, i) + inherits_in(t, file, i + 1, t.after(i))
    }
}

/// The references to bases in the subtrees of the nodes `lo..hi`.
pub open spec fn inherits_in(t: Syntax, file: Seq<char>, lo: int, hi: int) -> Seq<ReferenceView>
    decreases t.left(lo), 1nat,
{
    if lo >= hi || !t.has(lo) {
        Seq::empty()
    } else {
        inherits_at(t, file, lo) + inherits_in(t, file, t.next(lo, hi), hi)
    }
}

/// Adds the references to bases in the subtree of node `i`.
fn collect_inheritance(tree: &SyntaxTree, i: usize, file: &str, out: &mut Vec<Reference>)
    requires
        i < tree@.len(),
    ensures
        views(final(out)@) == views(old(out)@) + inherits_at(tree@, file@, i as int),
    decreases tree@.left(i as int),
{
    if tree.is(i, "class_declaration") {
        push_bases_under(tree, i, file, "superclass", out);
        push_bases_under(tree, i, file, "interfaces", out);
    } else if tree.is(i, "mixin_declaration") {
        push_on_types(tree, i, file, out);
        push_bases_under(tree, i, file, "interfaces", out);
    }
    let hi: usize = tree.after(i);
    let mut lo: usize = i + 1;
    while lo < hi
        invariant
            i < lo,
            i < tree@.len(),
            hi == tree@.after(i as int),
            hi <= tree@.len(),
            views(out@) + inherits_in(tree@, file@, lo as int, hi as int) == views(old(out)@)
                + inherits_at(tree@, file@, i as int),
        decreases hi - lo,
    {
        collect_inheritance(tree, lo, file, out);
        lo = tree.next(lo, hi);
    }
}

/// The references to bases of node `i` itself, for each `i`.
pub open spec fn inherits_of_nodes(
    t: Syntax,
    file: Seq<char>,
) -> spec_fn(int) -> Seq<ReferenceView> {
    |j: int| declared_bases(t, file, j)
}

/// The references to bases in a subtree are those of its nodes, in document
/// order: none is missed and none is reported twice.
pub proof fn inherits_in_document_order(t: Syntax, file: Seq<char>, i: int)
    requires
        t.nested(),
        t.has(i),
    ensures
        inherits_at(t, file, i) == in_order(inherits_of_nodes(t, file), i, t.after(i)),
    decreases t.left(i), 0nat,
{
    let items = inherits_of_nodes(t, file);
    inherits_of_siblings(t, file, i + 1, t.after(i));
    assert(in_order(items, i, t.after(i)) == items(i) + in_order(items, i + 1, t.after(i)));
    assert(Seq::<ReferenceView>::empty() + items(i) =~= items(i) + Seq::<ReferenceView>::empty());
}

proof fn inherits_of_siblings(t: Syntax, file: Seq<char>, lo: int, hi: int)
    requires
        t.nested(),
        t.closed_range(lo, hi),
    ensures
        inherits_in(t, file, lo, hi) == in_order(inherits_of_nodes(t, file), lo, hi),
    decreases t.left(lo), 1nat,
{
    if lo < hi {
        let items = inherits_of_nodes(t, file);
        inherits_in_document_order(t, file, lo);
        inherits_of_siblings(t, file, t.after(lo), hi);
        in_order_split(items, lo, t.after(lo), hi);
    }
}

// ── Imports ──────────────────────────────────────────────────────────────────

/// The text of the first string in the subtree of node `i`.
pub open spec fn string_at(t: Syntax, i: int) -> Option<Seq<char>>
    decreases t.left(i), 0nat,
{
    if !t.has(i) {
        None
    } else if t.kind(i) == "string_literal"@ {
        Some(t.text(i))
    } else {
        string_in(t, i + 1, t.after(i))
    }
}

/// The text of the first string in the subtrees of the nodes `lo..hi`.
pub open spec fn string_in(t: Syntax, lo: int, hi: int) -> Option<Seq<char>>
    decreases t.left(lo), 1nat,
{
    if lo >= hi || !t.has(lo) {
        None
    } else {
        match string_at(t, lo) {
            Some(text) => Some(text),
            None => string_in(t, t.next(lo, hi), hi),
        }
    }
}

/// The text of the first string in the subtree of node `i`.
fn find_string_literal(tree: &SyntaxTree, i: usize) -> (text: Option<String>)
    requires
        i < tree@.len(),
    ensures
        opt_text(text) == string_at(tree@, i as int),
    decreases tree@.left(i as int),
{
    if tree.is(i, "string_literal") {
        return Some(tree.text(i).to_owned());
    }
    let hi: usize = tree.after(i);
    let mut lo: usize = i + 1;
    while lo < hi
        invariant
            i < lo,
            i < tree@.len(),
            hi == tree@.after(i as int),
            hi <= tree@.len(),
            string_in(tree@, lo as int, hi as int) == string_at(tree@, i as int),
        decreases hi - lo,
    {
        if let Some(text) = find_string_literal(tree, lo) {
            return Some(text);
        }
        lo = tree.next(lo, hi);
    }
    None
}

/// A text without the single or double quotes around it, where it has them.
pub open spec fn plain(text: Seq<char>) -> Seq<char> {
    match unquoted_by(text, "'"@) {
        Some(inner) => inner,
        None => match unquoted_by(text, "\""@) {
            Some(inner) => inner,
            None => text,
        },
    }
}

/// The address that the import specification `i` names.
pub open spec fn uri_of(t: Syntax, i: int) -> Option<Seq<char>> {
    match t.child(i, "uri"@) {
        Some(uri) => match string_at(t, uri) {
            Some(text) => Some(plain(text)),
            None => None,
        },
        None => None,
    }
}

/// The address that the import specification `i` names.
fn extract_uri_text(tree: &SyntaxTree, i: usize) -> (uri: Option<String>)
    requires
        i < tree@.len(),
    ensures
        opt_text(uri) == uri_of(tree@, i as int),
{
    let field: usize = match tree.child(i, "uri") {
        Some(field) => field,
        None => {
            return None;
        },
    };
    match find_string_literal(tree, field) {
        Some(raw) => match strip_quotes(raw.as_str(), "'") {
            Some(inner) => Some(inner.to_owned()),
            None => match strip_quotes(raw.as_str(), "\"") {
                Some(inner) => Some(inner.to_owned()),
                None => Some(raw),
            },
        },
        None => None,
    }
}

/// Whether the first of the words `show` and `hide` among `lo..hi` is `show`.
pub open spec fn shows_in(t: Syntax, lo: int, hi: int) -> bool
    decreases hi - lo,
{
    if lo >= hi {
        false
    } else if t.kind(lo) == "show"@ || t.kind(lo) == "hide"@ {
        t.kind(lo) == "show"@
    } else {
        shows_in(t, t.next(lo, hi), hi)
    }
}

/// Whether node `i` is a combinator that shows names.
pub open spec fn is_show(t: Syntax, i: int) -> bool {
    t.kind(i) == "combinator"@ && shows_in(t, i + 1, t.after(i))
}

/// Whether node `i` is a combinator that shows names.
fn shows_names(tree: &SyntaxTree, i: usize) -> (b: bool)
    requires
        i < tree@.len(),
    ensures
        b == is_show(tree@, i as int),
{
    if !tree.is(i, "combinator") {
        return false;
    }
    let hi: usize = tree.after(i);
    let mut lo: usize = i + 1;
    while lo < hi
        invariant
            i < lo,
            hi == tree@.after(i as int),
            hi <= tree@.len(),
            tree@.kind(i as int) == "combinator"@,
            shows_in(tree@, lo as int, hi as int) == is_show(tree@, i as int),
        decreases hi - lo,
    {
        if tree.is(lo, "show") || tree.is(lo, "hide") {
            return tree.is(lo, "show");
        }
        lo = tree.next(lo, hi);
    }
    false
}

/// Whether one of the nodes `lo..hi` is a combinator that shows names.
pub open spec fn any_show_in(t: Syntax, lo: int, hi: int) -> bool
    decreases hi - lo,
{
    lo < hi && (is_show(t, lo) || any_show_in(t, t.next(lo, hi), hi))
}

/// Whether the import specification `i` shows names.
fn has_show(tree: &SyntaxTree, i: usize) -> (b: bool)
    requires
        i < tree@.len(),
    ensures
        b == any_show_in(tree@, i + 1, tree@.after(i as int)),
{
    let hi: usize = tree.after(i);
    let mut lo: usize = i + 1;
    while lo < hi
        invariant
            i < lo,
            hi == tree@.after(i as int),
            hi <= tree@.len(),
            any_show_in(tree@, lo as int, hi as int) == any_show_in(tree@, i + 1, hi as int),
        decreases hi - lo,
    {
        if shows_names(tree, lo) {
            return true;
        }
        lo = tree.next(lo, hi);
    }
    false
}

/// The last identifier among the nodes `lo..hi`; `found` where there is none.
pub open spec fn last_identifier_in(t: Syntax, lo: int, hi: int, found: Option<int>) -> Option<int>
    decreases hi - lo,
{
    if lo >= hi {
        found
    } else {
        last_identifier_in(
            t,
            t.next(lo, hi),
            hi,
            if t.kind(lo) == "identifier"@ {
                Some(lo)
            } else {
                found
            },
        )
    }
}

/// The alias of the import specification `i`: its last identifier.
fn find_alias(tree: &SyntaxTree, i: usize) -> (alias: Option<usize>)
    requires
        i < tree@.len(),
    ensures
        opt_index(alias) == last_identifier_in(tree@, i + 1, tree@.after(i as int), None),
{
    let mut alias: Option<usize> = None;
    let hi: usize = tree.after(i);
    let mut lo: usize = i + 1;
    while lo < hi
        invariant
            i < lo,
            hi == tree@.after(i as int),
            hi <= tree@.len(),
            last_identifier_in(tree@, lo as int, hi as int, opt_index(alias))
                == last_identifier_in(tree@, i + 1, hi as int, None),
        decreases hi - lo,
    {
        if tree.is(lo, "identifier") {
            alias = Some(lo);
        }
        lo = tree.next(lo, hi);
    }
    alias
}

/// The imports of the names among the parts `lo..hi` of a combinator.
pub open spec fn shown_names_in(
    t: Syntax,
    file: Seq<char>,
    module: Seq<char>,
    from_path: Seq<char>,
    lo: int,
    hi: int,
) -> Seq<ReferenceView>
    decreases hi - lo,
{
    if lo >= hi {
        Seq::empty()
    } else {
        (if t.kind(lo) == "identifier"@ {
            seq![import_at(t, file, lo, t.text(lo), module, from_path)]
        } else {
            Seq::empty()
        }) + shown_names_in(t, file, module, from_path, t.next(lo, hi), hi)
    }
}

/// Adds the imports of the names in the combinator `i`.
fn push_shown_names(
    tree: &SyntaxTree,
    i: usize,
    file: &str,
    module: &str,
    from_path: &str,
    out: &mut Vec<Reference>,
)
    requires
        i < tree@.len(),
    ensures
        views(final(out)@)
            == views(old(out)@)
                + shown_names_in(tree@, file@, module@, from_path@, i + 1, tree@.after(i as int)),
{
    let hi: usize = tree.after(i);
    let mut lo: usize = i + 1;
    while lo < hi
        invariant
            i < lo,
            i < tree@.len(),
            hi == tree@.after(i as int),
            hi <= tree@.len(),
            views(out@) + shown_names_in(tree@, file@, module@, from_path@, lo as int, hi as int)
                == views(old(out)@)
                + shown_names_in(tree@, file@, module@, from_path@, i + 1, hi as int),
        decreases hi - lo,
    {
        if tree.is(lo, "identifier") {
            push_import_ref(out, tree, file, lo, tree.text(lo), module, from_path);
        }
        lo = tree.next(lo, hi);
    }
}

/// The imports of the names that the combinators among `lo..hi` show.
pub open spec fn shown_in(
    t: Syntax,
    file: Seq<char>,
    module: Seq<char>,
    from_path: Seq<char>,
    lo: int,
    hi: int,
) -> Seq<ReferenceView>
    decreases hi - lo,
{
    if lo >= hi {
        Seq::empty()
    } else {
        (if is_show(t, lo) {
            shown_names_in(t, file, module, from_path, lo + 1, t.after(lo))
        } else {
            Seq::empty()
        }) + shown_in(t, file, module, from_path, t.next(lo, hi), hi)
    }
}

/// Adds the imports of the names that the import specification `i` shows.
fn push_shown(
    tree: &SyntaxTree,
    i: usize,
    file: &str,
    module: &str,
    from_path: &str,
    out: &mut Vec<Reference>,
)
    requires
        i < tree@.len(),
    ensures
        views(final(out)@)
            == views(old(out)@)
                + shown_in(tree@, file@, module@, from_path@, i + 1, tree@.after(i as int)),
{
    let hi: usize = tree.after(i);
    let mut lo: usize = i + 1;
    while lo < hi
        invariant
            i < lo,
            i < tree@.len(),
            hi == tree@.after(i as int),
            hi <= tree@.len(),
            views(out@) + shown_in(tree@, file@, module@, from_path@, lo as int, hi as int)
                == views(old(out)@)
                + shown_in(tree@, file@, module@, from_path@, i + 1, hi as int),
        decreases hi - lo,
    {
        if shows_names(tree, lo) {
            push_shown_names(tree, lo, file, module, from_path, out);
        }
        lo = tree.next(lo, hi);
    }
}

/// The imports of the import specification `i`: the names that it shows, or else
/// its alias. One with neither names nothing.
pub open spec fn specified(t: Syntax, file: Seq<char>, module: Seq<char>, i: int) -> Seq<
    ReferenceView,
> {
    match uri_of(t, i) {
        Some(from_path) => if any_show_in(t, i + 1, t.after(i)) {
            shown_in(t, file, module, from_path, i + 1, t.after(i))
        } else {
            match last_identifier_in(t, i + 1, t.after(i), None) {
                Some(alias) => seq![import_at(t, file, alias, t.text(alias), module, from_path)],
                None => Seq::empty(),
            }
        },
        None => Seq::empty(),
    }
}

/// Adds the imports of the import specification `i`.
fn collect_import_specification(
    tree: &SyntaxTree,
    i: usize,
    file: &str,
    module: &str,
    out: &mut Vec<Reference>,
)
    requires
        i < tree@.len(),
    ensures
        views(final(out)@) == views(old(out)@) + specified(tree@, file@, module@, i as int),
{
    if let Some(from_path) = extract_uri_text(tree, i) {
        if has_show(tree, i) {
            push_shown(tree, i, file, module, from_path.as_str(), out);
        } else if let Some(alias) = find_alias(tree, i) {
            push_import_ref(
                out,
                tree,
                file,
                alias,
                tree.text(alias),
                module,
                from_path.as_str(),
            );
        }
    }
}

/// The imports of the import specifications among `lo..hi`.
pub open spec fn specified_in(
    t: Syntax,
    file: Seq<char>,
    module: Seq<char>,
    lo: int,
    hi: int,
) -> Seq<ReferenceView>
    decreases hi - lo,
{
    if lo >= hi {
        Seq::empty()
    } else {
        (if t.kind(lo) == "import_specification"@ {
            specified(t, file, module, lo)
        } else {
            Seq::empty()
        }) + specified_in(t, file, module, t.next(lo, hi), hi)
    }
}

/// Adds the imports of the import specifications in the library import `i`.
fn collect_library_import(
    tree: &SyntaxTree,
    i: usize,
    file: &str,
    module: &str,
    out: &mut Vec<Reference>,
)
    requires
        i < tree@.len(),
    ensures
        views(final(out)@)
            == views(old(out)@) + specified_in(tree@, file@, module@, i + 1, tree@.after(i as int)),
{
    let hi: usize = tree.after(i);
    let mut lo: usize = i + 1;
    while lo < hi
        invariant
            i < lo,
            i < tree@.len(),
            hi == tree@.after(i as int),
            hi <= tree@.len(),
            views(out@) + specified_in(tree@, file@, module@, lo as int, hi as int)
                == views(old(out)@)
                + specified_in(tree@, file@, module@, i + 1, hi as int),
        decreases hi - lo,
    {
        if tree.is(lo, "import_specification") {
            collect_import_specification(tree, lo, file, module, out);
        }
        lo = tree.next(lo, hi);
    }
}

/// The imports of the library imports among `lo..hi`.
pub open spec fn libraries_in(
    t: Syntax,
    file: Seq<char>,
    module: Seq<char>,
    lo: int,
    hi: int,
) -> Seq<ReferenceView>
    decreases hi - lo,
{
    if lo >= hi {
        Seq::empty()
    } else {
        (if t.kind(lo) == "library_import"@ {
            specified_in(t, file, module, lo + 1, t.after(lo))
        } else {
            Seq::empty()
        }) + libraries_in(t, file, module, t.next(lo, hi), hi)
    }
}

/// Adds the imports of the library imports in the directive `i`.
fn collect_import_or_export(
    tree: &SyntaxTree,
    i: usize,
    file: &str,
    module: &str,
    out: &mut Vec<Reference>,
)
    requires
        i < tree@.len(),
    ensures
        views(final(out)@)
            == views(old(out)@) + libraries_in(tree@, file@, module@, i + 1, tree@.after(i as int)),
{
    let hi: usize = tree.after(i);
    let mut lo: usize = i + 1;
    while lo < hi
        invariant
            i < lo,
            i < tree@.len(),
            hi == tree@.after(i as int),
            hi <= tree@.len(),
            views(out@) + libraries_in(tree@, file@, module@, lo as int, hi as int)
                == views(old(out)@)
                + libraries_in(tree@, file@, module@, i + 1, hi as int),
        decreases hi - lo,
    {
        if tree.is(lo, "library_import") {
            collect_library_import(tree, lo, file, module, out);
        }
        lo = tree.next(lo, hi);
    }
}

/// The imports of node `i` itself.
pub open spec fn imports_of(t: Syntax, file: Seq<char>, module: Seq<char>, i: int) -> Seq<
    ReferenceView,
> {
    if t.kind(i) == "import_or_export"@ {
        libraries_in(t, file, module, i + 1, t.after(i))
    } else {
        Seq::empty()
    }
}

/// The imports in the subtree of node `i`.
pub open spec fn imports_at(
    t: Syntax,
    file: Seq<char>,
    module: Seq<char>,
    i: int,
) -> Seq<ReferenceView>
    decreases t.left(i), 0nat,
{
    if !t.has(i) {
        Seq::empty()
    } else if t.kind(i) == "import_or_export"@ {
        imports_of(t, file, module, i)
    } else {
        imports_of(t, file, module, i) + imports_in(t, file, module, i + 1, t.after(i))
    }
}

/// The imports in the subtrees of the nodes `lo..hi`.
pub open spec fn imports_in(
    t: Syntax,
    file: Seq<char>,
    module: Seq<char>,
    lo: int,
    hi: int,
) -> Seq<ReferenceView>
    decreases t.left(lo), 1nat,
{
    if lo >= hi || !t.has(lo) {
        Seq::empty()
    } else {
        imports_at(t, file, module, lo) + imports_in(t, file, module, t.next(lo, hi), hi)
    }
}

/// Adds the imports in the subtree of node `i`.
fn collect_imports(tree: &SyntaxTree, i: usize, file: &str, module: &str, out: &mut Vec<Reference>)
    requires
        i < tree@.len(),
    ensures
        views(final(out)@) == views(old(out)@) + imports_at(tree@, file@, module@, i as int),
    decreases tree@.left(i as int),
{
    if tree.is(i, "import_or_export") {
        collect_import_or_export(tree, i, file, module, out);
    }
    if tree.is(i, "import_or_export") {
        return ;
    }
    let hi: usize = tree.after(i);
    let mut lo: usize = i + 1;
    while lo < hi
        invariant
            i < lo,
            i < tree@.len(),
            hi == tree@.after(i as int),
            hi <= tree@.len(),
            views(out@) + imports_in(tree@, file@, module@, lo as int, hi as int)
                == views(old(out)@)
                + imports_at(tree@, file@, module@, i as int),
        decreases hi - lo,
    {
        collect_imports(tree, lo, file, module, out);
        lo = tree.next(lo, hi);
    }
}

/// The imports of node `i` itself, for each `i`.
pub open spec fn imports_of_nodes(
    t: Syntax,
    file: Seq<char>,
    module: Seq<char>,
) -> spec_fn(int) -> Seq<ReferenceView> {
    |j: int| imports_of(t, file, module, j)
}

/// The imports in a subtree are those of its nodes, in document order: none is missed
/// and none is reported twice.
pub proof fn imports_in_document_order(t: Syntax, file: Seq<char>, module: Seq<char>, i: int)
    requires
        t.nested(),
        t.has(i),
        forall|j: int, k: int|
            t.has(j) && t.kind(j) == "import_or_export"@ && j < k < #[trigger] t.after(j)
                ==> #[trigger] t.kind(k) != "import_or_export"@,
    ensures
        imports_at(t, file, module, i) == in_order(
            imports_of_nodes(t, file, module),
            i,
            t.after(i),
        ),
    decreases t.left(i), 0nat,
{
    let items = imports_of_nodes(t, file, module);
    if t.kind(i) == "import_or_export"@ {
        in_order_none(items, i + 1, t.after(i));
    } else {
        imports_of_siblings(t, file, module, i + 1, t.after(i));
    }
    assert(in_order(items, i, t.after(i)) == items(i) + in_order(items, i + 1, t.after(i)));
    assert(Seq::<ReferenceView>::empty() + items(i) =~= items(i) + Seq::<ReferenceView>::empty());
}

proof fn imports_of_siblings(t: Syntax, file: Seq<char>, module: Seq<char>, lo: int, hi: int)
    requires
        t.nested(),
        t.closed_range(lo, hi),
        forall|j: int, k: int|
            t.has(j) && t.kind(j) == "import_or_export"@ && j < k < #[trigger] t.after(j)
                ==> #[trigger] t.kind(k) != "import_or_export"@,
    ensures
        imports_in(t, file, module, lo, hi) == in_order(imports_of_nodes(t, file, module), lo, hi),
    decreases t.left(lo), 1nat,
{
    if lo < hi {
        let items = imports_of_nodes(t, file, module);
        imports_in_document_order(t, file, module, lo);
        imports_of_siblings(t, file, module, t.after(lo), hi);
        in_order_split(items, lo, t.after(lo), hi);
    }
}

// ── Type references ──────────────────────────────────────────────────────────

/// Whether a name is that of a built-in type.
pub open spec fn is_builtin(name: Seq<char>) -> bool {
    name == "int"@ || name == "double"@ || name == "num"@ || name == "bool"@ || name == "String"@
        || name == "Object"@ || name == "dynamic"@ || name == "Never"@
}

/// Whether a name is that of a built-in type.
fn names_builtin(name: &str) -> (b: bool)
    ensures
        b == is_builtin(name@),
{
    same(name, "int") || same(name, "double") || same(name, "num") || same(name, "bool") || same(
        name,
        "String",
    ) || same(name, "Object") || same(name, "dynamic") || same(name, "Never")
}

/// The references to types in the type `i`, which stands in the place `ctx`.
/// Built-in types are not reported.
pub open spec fn leaves_at(t: Syntax, file: Seq<char>, ctx: TypeRefContext, i: int) -> Seq<
    ReferenceView,
>
    decreases t.left(i), 0nat,
{
    let kind = t.kind(i);
    if !t.has(i) || kind == "void_type"@ {
        Seq::empty()
    } else if kind == "type_identifier"@ {
        if is_builtin(t.text(i)) {
            Seq::empty()
        } else {
            seq![type_reference_at(t, file, i, t.text(i), ctx)]
        }
    } else if kind == "type"@ {
        leaves_in(t, file, ctx, i + 1, t.after(i))
    } else if simple_name(t.text(i), "."@).len() == 0 {
        Seq::empty()
    } else {
        seq![type_reference_at(t, file, i, simple_name(t.text(i), "."@), ctx)]
    }
}

/// The references to types of the named nodes among `lo..hi`.
pub open spec fn leaves_in(
    t: Syntax,
    file: Seq<char>,
    ctx: TypeRefContext,
    lo: int,
    hi: int,
) -> Seq<ReferenceView>
    decreases t.left(lo), 1nat,
{
    if lo >= hi || !t.has(lo) {
        Seq::empty()
    } else {
        (if t.named(lo) {
            leaves_at(t, file, ctx, lo)
        } else {
            Seq::empty()
        }) + leaves_in(t, file, ctx, t.next(lo, hi), hi)
    }
}

/// Adds the references to types of the named children of node `i`.
fn type_leaves(
    tree: &SyntaxTree,
    i: usize,
    file: &str,
    ctx: TypeRefContext,
    out: &mut Vec<Reference>,
)
    requires
        i < tree@.len(),
    ensures
        views(final(out)@) == views(old(out)@) + leaves_in(
            tree@, file@, ctx,
            i + 1,
            tree@.after(i as int),
        ),
    decreases tree@.left(i as int), 0nat,
{
    let hi: usize = tree.after(i);
    let mut lo: usize = i + 1;
    while lo < hi
        invariant
            i < lo,
            i < tree@.len(),
            hi == tree@.after(i as int),
            hi <= tree@.len(),
            views(out@) + leaves_in(tree@, file@, ctx, lo as int, hi as int) == views(old(out)@)
                + leaves_in(tree@, file@, ctx, i + 1, hi as int),
        decreases hi - lo,
    {
        if tree.named(lo) {
            type_leaf(tree, lo, file, ctx, out);
        }
        lo = tree.next(lo, hi);
    }
}

/// Adds the references to types in the type `i`.
fn type_leaf(
    tree: &SyntaxTree,
    i: usize,
    file: &str,
    ctx: TypeRefContext,
    out: &mut Vec<Reference>,
)
    requires
        i < tree@.len(),
    ensures
        views(final(out)@) == views(old(out)@) + leaves_at(tree@, file@, ctx, i as int),
    decreases tree@.left(i as int), 1nat,
{
    if tree.is(i, "void_type") {
        return ;
    }
    if tree.is(i, "type_identifier") {
        let name = tree.text(i);
        if !names_builtin(name) {
            push_type_ref(out, tree, file, i, name, ctx);
        }
    } else if tree.is(i, "type") {
        type_leaves(tree, i, file, ctx, out);
    } else {
        let name = simple_type_name(tree.text(i), ".");
        if !is_empty(name) {
            push_type_ref(out, tree, file, i, name, ctx);
        }
    }
}

/// The references to types in what the function signature `i` returns.
pub open spec fn returned_refs(t: Syntax, file: Seq<char>, i: int) -> Seq<ReferenceView> {
    match t.child(i, "return_type"@) {
        Some(ty) => leaves_at(t, file, TypeRefContext::ReturnType, ty),
        None => Seq::empty(),
    }
}

/// Adds the references to types in what the signature `i` says is returned.
fn push_returned(tree: &SyntaxTree, i: usize, file: &str, out: &mut Vec<Reference>)
    requires
        i < tree@.len(),
    ensures
        views(final(out)@) == views(old(out)@) + returned_refs(tree@, file@, i as int),
{
    if let Some(ty) = tree.child(i, "return_type") {
        type_leaf(tree, ty, file, TypeRefContext::ReturnType, out);
    }
}

/// The references to types in the first type of node `i`.
pub open spec fn typed_refs(t: Syntax, file: Seq<char>, ctx: TypeRefContext, i: int) -> Seq<
    ReferenceView,
> {
    match t.child_of_kind(i, "type"@) {
        Some(ty) => leaves_at(t, file, ctx, ty),
        None => Seq::empty(),
    }
}

/// The references to types of node `i` itself: in what a function returns, in
/// the type of a parameter, and in that of a variable or a field.
pub open spec fn own_type_refs(t: Syntax, file: Seq<char>, i: int) -> Seq<ReferenceView> {
    let kind = t.kind(i);
    if is_signature(t, i) {
        returned_refs(t, file, i)
    } else if kind == "formal_parameter"@ {
        typed_refs(t, file, TypeRefContext::ParameterType, i)
    } else if kind == "top_level_variable_declaration"@ || kind == "declaration"@ {
        typed_refs(t, file, TypeRefContext::Field, i)
    } else {
        Seq::empty()
    }
}

/// The references to types in the subtree of node `i`.
pub open spec fn type_refs_at(t: Syntax, file: Seq<char>, i: int) -> Seq<ReferenceView>
    decreases t.left(i), 0nat,
{
    if !t.has(i) {
        Seq::empty()
    } else {
        own_type_refs(t, file, i) + type_refs_in(t, file, i + 1, t.after(i))
    }
}

/// The references to types in the subtrees of the nodes `lo..hi`.
pub open spec fn type_refs_in(t: Syntax, file: Seq<char>, lo: int, hi: int) -> Seq<ReferenceView>
    decreases t.left(lo), 1nat,
{
    if lo >= hi || !t.has(lo) {
        Seq::empty()
    } else {
        type_refs_at(t, file, lo) + type_refs_in(t, file, t.next(lo, hi), hi)
    }
}

/// Adds the references to types in the subtree of node `i`.
fn collect_type_references(tree: &SyntaxTree, i: usize, file: &str, out: &mut Vec<Reference>)
    requires
        i < tree@.len(),
    ensures
        views(final(out)@) == views(old(out)@) + type_refs_at(tree@, file@, i as int),
    decreases tree@.left(i as int),
{
    if is_method_signature(tree, i) {
        push_returned(tree, i, file, out);
    } else if tree.is(i, "formal_parameter") {
        if let Some(ty) = tree.child_of_kind(i, "type") {
            type_leaf(tree, ty, file, TypeRefContext::ParameterType, out);
        }
    } else if tree.is(i, "top_level_variable_declaration") || tree.is(i, "declaration") {
        if let Some(ty) = tree.child_of_kind(i, "type") {
            type_leaf(tree, ty, file, TypeRefContext::Field, out);
        }
    }
    let hi: usize = tree.after(i);
    let mut lo: usize = i + 1;
    while lo < hi
        invariant
            i < lo,
            i < tree@.len(),
            hi == tree@.after(i as int),
            hi <= tree@.len(),
            views(out@) + type_refs_in(tree@, file@, lo as int, hi as int) == views(old(out)@)
                + type_refs_at(tree@, file@, i as int),
        decreases hi - lo,
    {
        collect_type_references(tree, lo, file, out);
        lo = tree.next(lo, hi);
    }
}

/// The references to types of node `i` itself, for each `i`.
pub open spec fn type_refs_of_nodes(
    t: Syntax,
    file: Seq<char>,
) -> spec_fn(int) -> Seq<ReferenceView> {
    |j: int| own_type_refs(t, file, j)
}

/// The references to types in a subtree are those of its nodes, in document
/// order: none is missed and none is reported twice.
pub proof fn type_refs_in_document_order(t: Syntax, file: Seq<char>, i: int)
    requires
        t.nested(),
        t.has(i),
    ensures
        type_refs_at(t, file, i) == in_order(type_refs_of_nodes(t, file), i, t.after(i)),
    decreases t.left(i), 0nat,
{
    let items = type_refs_of_nodes(t, file);
    type_refs_of_siblings(t, file, i + 1, t.after(i));
    assert(in_order(items, i, t.after(i)) == items(i) + in_order(items, i + 1, t.after(i)));
    assert(Seq::<ReferenceView>::empty() + items(i) =~= items(i) + Seq::<ReferenceView>::empty());
}

proof fn type_refs_of_siblings(t: Syntax, file: Seq<char>, lo: int, hi: int)
    requires
        t.nested(),
        t.closed_range(lo, hi),
    ensures
        type_refs_in(t, file, lo, hi) == in_order(type_refs_of_nodes(t, file), lo, hi),
    decreases t.left(lo), 1nat,
{
    if lo < hi {
        let items = type_refs_of_nodes(t, file);
        type_refs_in_document_order(t, file, lo);
        type_refs_of_siblings(t, file, t.after(lo), hi);
        in_order_split(items, lo, t.after(lo), hi);
    }
}

// ── Reads and writes ─────────────────────────────────────────────────────────

/// The number of identifiers among the nodes `lo..hi`.
pub open spec fn identifiers_in(t: Syntax, lo: int, hi: int) -> nat
    decreases hi - lo,
{
    if lo >= hi {
        0
    } else {
        (if t.kind(lo) == "identifier"@ {
            1nat
        } else {
            0nat
        }) + identifiers_in(t, t.next(lo, hi), hi)
    }
}

/// Whether the assignable expression `i` is a bare name: one identifier, and not
/// the member or the element of an object.
pub open spec fn is_bare(t: Syntax, i: int) -> bool {
    identifiers_in(t, i + 1, t.after(i)) == 1 && t.child(i, "object"@) is None
}

/// Whether the assignable expression `i` is a bare name.
fn is_bare_expression(tree: &SyntaxTree, i: usize) -> (b: bool)
    requires
        i < tree@.len(),
    ensures
        b == is_bare(tree@, i as int),
{
    let hi: usize = tree.after(i);
    let mut lo: usize = i + 1;
    let mut count: usize = 0;
    while lo < hi
        invariant
            i < lo,
            hi == tree@.after(i as int),
            hi <= tree@.len(),
            count <= lo,
            count + identifiers_in(tree@, lo as int, hi as int) == identifiers_in(
                tree@,
                i + 1,
                hi as int,
            ),
        decreases hi - lo,
    {
        if tree.is(lo, "identifier") {
            count += 1;
        }
        lo = tree.next(lo, hi);
    }
    count == 1 && tree.child(i, "object").is_none()
}

/// Whether the identifier `i` is the bare target of an assignment.
pub open spec fn is_target(t: Syntax, i: int) -> bool {
    match t.parent(i) {
        Some(a) => match t.parent(a) {
            Some(p) => t.kind(a) == "assignable_expression"@ && t.kind(p)
                == "assignment_expression"@ && t.child(p, "left"@) == Some(a) && is_bare(t, a),
            None => false,
        },
        None => false,
    }
}

/// Whether the identifier `i` is the bare target of an assignment.
fn is_bare_assignable_target(tree: &SyntaxTree, i: usize) -> (b: bool)
    ensures
        b == is_target(tree@, i as int),
{
    match tree.parent(i) {
        Some(a) => match tree.parent(a) {
            Some(p) => tree.is(a, "assignable_expression") && tree.is(p, "assignment_expression")
                && tree.is_child(p, "left", a) && is_bare_expression(tree, a),
            None => false,
        },
        None => false,
    }
}

/// Whether a node of the kind `kind` introduces what stands under its field `name`:
/// a function, a type, a constant or a variable.
pub open spec fn names_what_it_declares(kind: Seq<char>) -> bool {
    kind == "function_signature"@
        || kind == "getter_signature"@
        || kind == "setter_signature"@
        || kind == "constructor_signature"@
        || kind == "constant_constructor_signature"@
        || kind == "factory_constructor_signature"@
        || kind == "redirecting_factory_constructor_signature"@
        || kind == "class_declaration"@
        || kind == "mixin_declaration"@
        || kind == "enum_declaration"@
        || kind == "extension_declaration"@
        || kind == "extension_type_declaration"@
        || kind == "enum_constant"@
        || kind == "typed_identifier"@
        || kind == "initialized_identifier"@
        || kind == "static_final_declaration"@
        || kind == "initialized_variable_definition"@
        || kind == "variable_pattern"@
        || kind == "for_statement"@
        || kind == "for_element"@
}

/// Whether a node of the kind `kind` introduces or imports each identifier that is
/// its child: a parameter, a variable, a class or an imported name.
pub open spec fn declares_identifiers(kind: Seq<char>) -> bool {
    kind == "formal_parameter"@
        || kind == "constructor_param"@
        || kind == "super_formal_parameter"@
        || kind == "identifier_list"@
        || kind == "mixin_application_class"@
        || kind == "catch_clause"@
        || kind == "import_specification"@
        || kind == "combinator"@
}

/// Whether node `p` introduces what stands under its field `name`.
fn is_declaration(tree: &SyntaxTree, p: usize) -> (b: bool)
    ensures
        b == names_what_it_declares(tree@.kind(p as int)),
{
    tree.is(p, "function_signature")
        || tree.is(p, "getter_signature")
        || tree.is(p, "setter_signature")
        || tree.is(p, "constructor_signature")
        || tree.is(p, "constant_constructor_signature")
        || tree.is(p, "factory_constructor_signature")
        || tree.is(p, "redirecting_factory_constructor_signature")
        || tree.is(p, "class_declaration")
        || tree.is(p, "mixin_declaration")
        || tree.is(p, "enum_declaration")
        || tree.is(p, "extension_declaration")
        || tree.is(p, "extension_type_declaration")
        || tree.is(p, "enum_constant")
        || tree.is(p, "typed_identifier")
        || tree.is(p, "initialized_identifier")
        || tree.is(p, "static_final_declaration")
        || tree.is(p, "initialized_variable_definition")
        || tree.is(p, "variable_pattern")
        || tree.is(p, "for_statement")
        || tree.is(p, "for_element")
}

/// Whether node `p` introduces or imports each identifier that is its child.
fn is_identifier_list(tree: &SyntaxTree, p: usize) -> (b: bool)
    ensures
        b == declares_identifiers(tree@.kind(p as int)),
{
    tree.is(p, "formal_parameter")
        || tree.is(p, "constructor_param")
        || tree.is(p, "super_formal_parameter")
        || tree.is(p, "identifier_list")
        || tree.is(p, "mixin_application_class")
        || tree.is(p, "catch_clause")
        || tree.is(p, "import_specification")
        || tree.is(p, "combinator")
}

/// Whether the identifier `i` stands where it is not read: where it is called,
/// introduced, imported, assigned to, or names a member.
pub open spec fn not_read(t: Syntax, i: int) -> bool {
    match t.parent(i) {
        None => true,
        Some(p) => {
            let kind = t.kind(p);
            if kind == "call_expression"@ {
                t.child(p, "function"@) == Some(i)
            } else if names_what_it_declares(kind) {
                t.in_field(i, "name"@)
            } else if kind == "assignable_expression"@ {
                is_target(t, i) || t.child(p, "property"@) == Some(i)
            } else if kind == "assignment_expression"@ {
                t.child(p, "left"@) == Some(i)
            } else if kind == "member_expression"@ || kind == "null_aware_member_expression"@
                || kind == "cascade_member_expression"@ || kind
                == "cascade_null_aware_member_expression"@ {
                t.child(p, "property"@) == Some(i)
            } else {
                declares_identifiers(kind)
            }
        },
    }
}

/// Whether the identifier `i` stands where it is not read.
fn is_non_read_position(tree: &SyntaxTree, i: usize) -> (b: bool)
    ensures
        b == not_read(tree@, i as int),
{
    match tree.parent(i) {
        None => true,
        Some(p) => {
            if tree.is(p, "call_expression") {
                tree.is_child(p, "function", i)
            } else if is_declaration(tree, p) {
                tree.in_field(i, "name")
            } else if tree.is(p, "assignable_expression") {
                is_bare_assignable_target(tree, i) || tree.is_child(p, "property", i)
            } else if tree.is(p, "assignment_expression") {
                tree.is_child(p, "left", i)
            } else if tree.is(p, "member_expression") || tree.is(p, "null_aware_member_expression")
                || tree.is(p, "cascade_member_expression") || tree.is(
                p,
                "cascade_null_aware_member_expression",
            ) {
                tree.is_child(p, "property", i)
            } else {
                is_identifier_list(tree, p)
            }
        },
    }
}

/// The read that the identifier `i` is, where it is long enough and stands where
/// it is read.
pub open spec fn read_of(t: Syntax, file: Seq<char>, i: int) -> Seq<ReferenceView> {
    if (t.kind(i) == "identifier"@) && reportable(t.text(i)) && !not_read(t, i) {
        seq![reference_at(t, file, i, t.text(i), RefRole::Read)]
    } else {
        Seq::empty()
    }
}

/// The reads in the subtree of node `i`.
pub open spec fn reads_at(t: Syntax, file: Seq<char>, i: int) -> Seq<ReferenceView>
    decreases t.left(i), 0nat,
{
    if !t.has(i) {
        Seq::empty()
    } else if t.kind(i) == "identifier"@ {
        read_of(t, file, i)
    } else {
        read_of(t, file, i) + reads_in(t, file, i + 1, t.after(i))
    }
}

/// The reads in the subtrees of the nodes `lo..hi`.
pub open spec fn reads_in(t: Syntax, file: Seq<char>, lo: int, hi: int) -> Seq<ReferenceView>
    decreases t.left(lo), 1nat,
{
    if lo >= hi || !t.has(lo) {
        Seq::empty()
    } else {
        reads_at(t, file, lo) + reads_in(t, file, t.next(lo, hi), hi)
    }
}

/// Adds the reads in the subtree of node `i`.
fn collect_read_references(tree: &SyntaxTree, i: usize, file: &str, out: &mut Vec<Reference>)
    requires
        i < tree@.len(),
    ensures
        views(final(out)@) == views(old(out)@) + reads_at(tree@, file@, i as int),
    decreases tree@.left(i as int),
{
    if tree.is(i, "identifier") {
        let name = tree.text(i);
        if is_reportable(name) && !is_non_read_position(tree, i) {
            push_ref(out, tree, file, i, name, RefRole::Read);
        }
    }
    if tree.is(i, "identifier") {
        return ;
    }
    let hi: usize = tree.after(i);
    let mut lo: usize = i + 1;
    while lo < hi
        invariant
            i < lo,
            i < tree@.len(),
            hi == tree@.after(i as int),
            hi <= tree@.len(),
            views(out@) + reads_in(tree@, file@, lo as int, hi as int) == views(old(out)@)
                + reads_at(tree@, file@, i as int),
        decreases hi - lo,
    {
        collect_read_references(tree, lo, file, out);
        lo = tree.next(lo, hi);
    }
}

/// The reads of node `i` itself, for each `i`.
pub open spec fn reads_of_nodes(t: Syntax, file: Seq<char>) -> spec_fn(int) -> Seq<ReferenceView> {
    |j: int| read_of(t, file, j)
}

/// The reads in a subtree are those of its nodes, in document order: none is missed
/// and none is reported twice.
pub proof fn reads_in_document_order(t: Syntax, file: Seq<char>, i: int)
    requires
        t.nested(),
        t.has(i),
        forall|j: int, k: int|
            t.has(j) && t.kind(j) == "identifier"@ && j < k < #[trigger] t.after(j)
                ==> #[trigger] t.kind(k) != "identifier"@,
    ensures
        reads_at(t, file, i) == in_order(reads_of_nodes(t, file), i, t.after(i)),
    decreases t.left(i), 0nat,
{
    let items = reads_of_nodes(t, file);
    if t.kind(i) == "identifier"@ {
        in_order_none(items, i + 1, t.after(i));
    } else {
        reads_of_siblings(t, file, i + 1, t.after(i));
    }
    assert(in_order(items, i, t.after(i)) == items(i) + in_order(items, i + 1, t.after(i)));
    assert(Seq::<ReferenceView>::empty() + items(i) =~= items(i) + Seq::<ReferenceView>::empty());
}

proof fn reads_of_siblings(t: Syntax, file: Seq<char>, lo: int, hi: int)
    requires
        t.nested(),
        t.closed_range(lo, hi),
        forall|j: int, k: int|
            t.has(j) && t.kind(j) == "identifier"@ && j < k < #[trigger] t.after(j)
                ==> #[trigger] t.kind(k) != "identifier"@,
    ensures
        reads_in(t, file, lo, hi) == in_order(reads_of_nodes(t, file), lo, hi),
    decreases t.left(lo), 1nat,
{
    if lo < hi {
        let items = reads_of_nodes(t, file);
        reads_in_document_order(t, file, lo);
        reads_of_siblings(t, file, t.after(lo), hi);
        in_order_split(items, lo, t.after(lo), hi);
    }
}

/// The identifier that the left side `lhs` of an assignment writes to, where it
/// is a bare name.
pub open spec fn written(t: Syntax, lhs: int) -> Option<int> {
    if t.kind(lhs) == "assignable_expression"@ {
        if is_bare(t, lhs) {
            t.child_of_kind(lhs, "identifier"@)
        } else {
            None
        }
    } else if t.kind(lhs) == "identifier"@ {
        Some(lhs)
    } else {
        None
    }
}

/// The identifier that the left side `lhs` of an assignment writes to.
fn find_written(tree: &SyntaxTree, lhs: usize) -> (target: Option<usize>)
    requires
        lhs < tree@.len(),
    ensures
        opt_index(target) == written(tree@, lhs as int),
{
    if tree.is(lhs, "assignable_expression") {
        if is_bare_expression(tree, lhs) {
            tree.child_of_kind(lhs, "identifier")
        } else {
            None
        }
    } else if tree.is(lhs, "identifier") {
        Some(lhs)
    } else {
        None
    }
}

/// The write of the assignment `i` to a bare name that is long enough.
pub open spec fn write_of(t: Syntax, file: Seq<char>, i: int) -> Seq<ReferenceView> {
    match t.child(i, "left"@) {
        Some(lhs) => match written(t, lhs) {
            Some(n) => if t.kind(i) == "assignment_expression"@ && reportable(t.text(n)) {
                seq![reference_at(t, file, n, t.text(n), RefRole::Write)]
            } else {
                Seq::empty()
            },
            None => Seq::empty(),
        },
        None => Seq::empty(),
    }
}

/// The writes in the subtree of node `i`.
pub open spec fn writes_at(t: Syntax, file: Seq<char>, i: int) -> Seq<ReferenceView>
    decreases t.left(i), 0nat,
{
    if !t.has(i) {
        Seq::empty()
    } else {
        write_of(t, file, i) + writes_in(t, file, i + 1, t.after(i))
    }
}

/// The writes in the subtrees of the nodes `lo..hi`.
pub open spec fn writes_in(t: Syntax, file: Seq<char>, lo: int, hi: int) -> Seq<ReferenceView>
    decreases t.left(lo), 1nat,
{
    if lo >= hi || !t.has(lo) {
        Seq::empty()
    } else {
        writes_at(t, file, lo) + writes_in(t, file, t.next(lo, hi), hi)
    }
}

/// Adds the writes in the subtree of node `i`.
fn collect_write_references(tree: &SyntaxTree, i: usize, file: &str, out: &mut Vec<Reference>)
    requires
        i < tree@.len(),
    ensures
        views(final(out)@) == views(old(out)@) + writes_at(tree@, file@, i as int),
    decreases tree@.left(i as int),
{
    if tree.is(i, "assignment_expression") {
        if let Some(lhs) = tree.child(i, "left") {
            if let Some(n) = find_written(tree, lhs) {
                let name = tree.text(n);
                if is_reportable(name) {
                    push_ref(out, tree, file, n, name, RefRole::Write);
                }
            }
        }
    }
    let hi: usize = tree.after(i);
    let mut lo: usize = i + 1;
    while lo < hi
        invariant
            i < lo,
            i < tree@.len(),
            hi == tree@.after(i as int),
            hi <= tree@.len(),
            views(out@) + writes_in(tree@, file@, lo as int, hi as int) == views(old(out)@)
                + writes_at(tree@, file@, i as int),
        decreases hi - lo,
    {
        collect_write_references(tree, lo, file, out);
        lo = tree.next(lo, hi);
    }
}

/// The writes of node `i` itself, for each `i`.
pub open spec fn writes_of_nodes(t: Syntax, file: Seq<char>) -> spec_fn(int) -> Seq<ReferenceView> {
    |j: int| write_of(t, file, j)
}

/// The writes in a subtree are those of its nodes, in document order: none is missed
/// and none is reported twice.
pub proof fn writes_in_document_order(t: Syntax, file: Seq<char>, i: int)
    requires
        t.nested(),
        t.has(i),
    ensures
        writes_at(t, file, i) == in_order(writes_of_nodes(t, file), i, t.after(i)),
    decreases t.left(i), 0nat,
{
    let items = writes_of_nodes(t, file);
    writes_of_siblings(t, file, i + 1, t.after(i));
    assert(in_order(items, i, t.after(i)) == items(i) + in_order(items, i + 1, t.after(i)));
    assert(Seq::<ReferenceView>::empty() + items(i) =~= items(i) + Seq::<ReferenceView>::empty());
}

proof fn writes_of_siblings(t: Syntax, file: Seq<char>, lo: int, hi: int)
    requires
        t.nested(),
        t.closed_range(lo, hi),
    ensures
        writes_in(t, file, lo, hi) == in_order(writes_of_nodes(t, file), lo, hi),
    decreases t.left(lo), 1nat,
{
    if lo < hi {
        let items = writes_of_nodes(t, file);
        writes_in_document_order(t, file, lo);
        writes_of_siblings(t, file, t.after(lo), hi);
        in_order_split(items, lo, t.after(lo), hi);
    }
}

// ── Scopes ───────────────────────────────────────────────────────────────────

/// The scopes, with those that node `i` opens under the scope `parent` behind
/// them: a type and a function each open one, in which what their bodies hold
/// stands; so does a block.
pub open spec fn scopes_with(t: Syntax, i: int, parent: ScopeId, scopes: Seq<Scope>) -> Seq<Scope>
    decreases t.left(i), 0nat,
{
    if !t.has(i) {
        scopes
    } else if t.kind(i) == "class_declaration"@ || t.kind(i) == "mixin_declaration"@
        || t.kind(i) == "enum_declaration"@ || t.kind(i) == "extension_declaration"@ {
        let opened = scopes.push(
            Scope { parent: Some(parent), span: span_at(t, i), kind: ScopeKind::Type },
        );
        match t.child(i, "body"@) {
            Some(body) => scopes_with_all(
                t,
                body + 1,
                t.after(body),
                scopes.len() as usize,
                opened,
            ),
            None => opened,
        }
    } else if t.kind(i) == "function_declaration"@ || t.kind(i) == "method_declaration"@ {
        let opened = scopes.push(
            Scope { parent: Some(parent), span: span_at(t, i), kind: ScopeKind::Function },
        );
        match t.child(i, "body"@) {
            Some(body) => scopes_with_all(
                t,
                body + 1,
                t.after(body),
                scopes.len() as usize,
                opened,
            ),
            None => opened,
        }
    } else if t.kind(i) == "block"@ {
        let opened = scopes.push(
            Scope { parent: Some(parent), span: span_at(t, i), kind: ScopeKind::Block },
        );
        scopes_with_all(t, i + 1, t.after(i), scopes.len() as usize, opened)
    } else {
        scopes_with_all(t, i + 1, t.after(i), parent, scopes)
    }
}

/// The scopes, with those that the nodes `lo..hi` open under the scope `parent`
/// behind them.
pub open spec fn scopes_with_all(
    t: Syntax,
    lo: int,
    hi: int,
    parent: ScopeId,
    scopes: Seq<Scope>,
) -> Seq<Scope>
    decreases t.left(lo), 1nat,
{
    if lo >= hi || !t.has(lo) {
        scopes
    } else {
        scopes_with_all(t, t.next(lo, hi), hi, parent, scopes_with(t, lo, parent, scopes))
    }
}

/// The scopes of a Dart file.
pub open spec fn scopes_of(t: Syntax, source_len: int) -> Seq<Scope> {
    scopes_with_all(t, 1, t.after(0), 0, seq![module_scope(source_len)])
}

/// The scopes of a Dart file. The first is that of the file as a whole.
pub fn collect_scopes(tree: &SyntaxTree, source_len: usize) -> (scopes: Vec<Scope>)
    ensures
        scopes@ == scopes_of(tree@, source_len as int),
        are_file_scopes(scopes@, source_len as int),
        spans_nest(tree@) && span_at(tree@, 0).end <= source_len ==> scopes_nest(scopes@),
{
    let mut scopes: Vec<Scope> = Vec::new();
    push_scope(&mut scopes, None, ByteSpan { start: 0, end: source_len }, ScopeKind::Module);
    assert(scopes@ =~= seq![module_scope(source_len as int)]);
    if tree.len() > 0 {
        scope_all(tree, 0, 0, &mut scopes);
    }
    scopes
}

/// Opens the scopes of the children of node `i` under the scope `parent`.
fn scope_all(tree: &SyntaxTree, i: usize, parent: ScopeId, scopes: &mut Vec<Scope>)
    requires
        i < tree@.len(),
        parent < old(scopes)@.len(),
        is_scope_tree(old(scopes)@),
    ensures
        final(scopes)@ == scopes_with_all(
            tree@,
            i + 1,
            tree@.after(i as int),
            parent,
            old(scopes)@,
        ),
        is_scope_tree(final(scopes)@),
        extends(final(scopes)@, old(scopes)@),
        nests_under(tree@, i as int, parent, old(scopes)@) ==> scopes_nest(final(scopes)@),
    decreases tree@.left(i as int), 0nat,
{
    let hi: usize = tree.after(i);
    let mut lo: usize = i + 1;
    while lo < hi
        invariant
            i < lo,
            i < tree@.len(),
            hi == tree@.after(i as int),
            hi <= tree@.len(),
            parent < old(scopes)@.len(),
            is_scope_tree(scopes@),
            extends(scopes@, old(scopes)@),
            nests_under(tree@, i as int, parent, old(scopes)@) ==> scopes_nest(scopes@),
            scopes_with_all(tree@, lo as int, hi as int, parent, scopes@) == scopes_with_all(
                tree@,
                i + 1,
                hi as int,
                parent,
                old(scopes)@,
            ),
        decreases hi - lo,
    {
        scope_dfs(tree, lo, parent, scopes);
        lo = tree.next(lo, hi);
    }
}

/// Opens the scopes of node `i` under the scope `parent`.
fn scope_dfs(tree: &SyntaxTree, i: usize, parent: ScopeId, scopes: &mut Vec<Scope>)
    requires
        i < tree@.len(),
        parent < old(scopes)@.len(),
        is_scope_tree(old(scopes)@),
    ensures
        final(scopes)@ == scopes_with(tree@, i as int, parent, old(scopes)@),
        is_scope_tree(final(scopes)@),
        extends(final(scopes)@, old(scopes)@),
        nests_under(tree@, i as int, parent, old(scopes)@) ==> scopes_nest(final(scopes)@),
    decreases tree@.left(i as int), 1nat,
{
    if tree.is(i, "class_declaration") || tree.is(i, "mixin_declaration")
        || tree.is(i, "enum_declaration") || tree.is(i, "extension_declaration") {
        let id: usize = push_scope(scopes, Some(parent), node_span(tree, i), ScopeKind::Type);
        if let Some(body) = tree.child(i, "body") {
            scope_all(tree, body, id, scopes);
        }
    } else if tree.is(i, "function_declaration") || tree.is(i, "method_declaration") {
        let id: usize = push_scope(scopes, Some(parent), node_span(tree, i), ScopeKind::Function);
        if let Some(body) = tree.child(i, "body") {
            scope_all(tree, body, id, scopes);
        }
    } else if tree.is(i, "block") {
        let id: usize = push_scope(scopes, Some(parent), node_span(tree, i), ScopeKind::Block);
        scope_all(tree, i, id, scopes);
    } else {
        scope_all(tree, i, parent, scopes);
    }
}

// ── Bindings ─────────────────────────────────────────────────────────────────

/// The name of the first type of node `i`, as it is written, without its
/// arguments and without what it is qualified with.
pub open spec fn written_type(t: Syntax, i: int) -> Option<Seq<char>> {
    match t.child_of_kind(i, "type"@) {
        Some(ty) => Some(simple_name(t.text(ty), "."@)),
        None => None,
    }
}

/// The name of the first type of node `i`, as it is written.
fn read_written_type(tree: &SyntaxTree, i: usize) -> (name: Option<String>)
    requires
        i < tree@.len(),
    ensures
        opt_text(name) == written_type(tree@, i as int),
{
    match tree.child_of_kind(i, "type") {
        Some(ty) => Some(simple_type_name(tree.text(ty), ".").to_owned()),
        None => None,
    }
}

/// The name that node `i` introduces as a variable of the type that node `owner`
/// has, where it is long enough and not one of the file as a whole.
pub open spec fn local_at(t: Syntax, scopes: Seq<Scope>, owner: int, i: int) -> Seq<BindingView> {
    match t.child(i, "name"@) {
        Some(n) => if reportable(t.text(n)) && !at_file_level(scopes, t.start(n)) {
            seq![
                local_binding(
                    scopes,
                    t.text(n),
                    t.start(n),
                    BindingKind::Local,
                    written_type(t, owner),
                ),
            ]
        } else {
            Seq::empty()
        },
        None => Seq::empty(),
    }
}

/// Adds the name that node `i` introduces as a variable.
fn push_local(
    tree: &SyntaxTree,
    i: usize,
    scopes: &Vec<Scope>,
    owner: usize,
    out: &mut Vec<Binding>,
)
    requires
        i < tree@.len(),
        owner < tree@.len(),
    ensures
        views(final(out)@) == views(old(out)@) + local_at(tree@, scopes@, owner as int, i as int),
{
    if let Some(n) = tree.child(i, "name") {
        let name = tree.text(n);
        let intro: usize = tree.start(n);
        if is_reportable(name) && !is_file_level(intro, scopes) {
            let declared_type = read_written_type(tree, owner);
            push_typed_binding(
                out,
                name.to_owned(),
                intro,
                BindingKind::Local,
                scopes,
                declared_type,
            );
        }
    }
}

/// The further names among the parts `lo..hi` of the variable definition `owner`.
pub open spec fn more_locals_in(
    t: Syntax,
    scopes: Seq<Scope>,
    owner: int,
    lo: int,
    hi: int,
) -> Seq<BindingView>
    decreases hi - lo,
{
    if lo >= hi {
        Seq::empty()
    } else {
        (if t.named(lo) && t.kind(lo) == "initialized_identifier"@ {
            local_at(t, scopes, owner, lo)
        } else {
            Seq::empty()
        }) + more_locals_in(t, scopes, owner, t.next(lo, hi), hi)
    }
}

/// Adds the further names under node `i` of the variable definition `owner`.
fn push_more_locals(
    tree: &SyntaxTree,
    i: usize,
    scopes: &Vec<Scope>,
    owner: usize,
    out: &mut Vec<Binding>,
)
    requires
        i < tree@.len(),
        owner < tree@.len(),
    ensures
        views(final(out)@)
            == views(old(out)@)
                + more_locals_in(tree@, scopes@, owner as int, i + 1, tree@.after(i as int)),
{
    let hi: usize = tree.after(i);
    let mut lo: usize = i + 1;
    while lo < hi
        invariant
            i < lo,
            i < tree@.len(),
            owner < tree@.len(),
            hi == tree@.after(i as int),
            hi <= tree@.len(),
            views(out@) + more_locals_in(tree@, scopes@, owner as int, lo as int, hi as int)
                == views(old(out)@)
                + more_locals_in(tree@, scopes@, owner as int, i + 1, hi as int),
        decreases hi - lo,
    {
        if tree.named(lo) && tree.is(lo, "initialized_identifier") {
            push_local(tree, lo, scopes, owner, out);
        }
        lo = tree.next(lo, hi);
    }
}

/// The names that the variable definitions among `lo..hi` introduce.
pub open spec fn definitions_in(t: Syntax, scopes: Seq<Scope>, lo: int, hi: int) -> Seq<BindingView>
    decreases hi - lo,
{
    if lo >= hi {
        Seq::empty()
    } else {
        (if t.kind(lo) == "initialized_variable_definition"@ {
            local_at(t, scopes, lo, lo) + more_locals_in(t, scopes, lo, lo + 1, t.after(lo))
        } else {
            Seq::empty()
        }) + definitions_in(t, scopes, t.next(lo, hi), hi)
    }
}

/// Adds the names that the variable definitions in the declaration `i` introduce.
fn push_definitions(tree: &SyntaxTree, i: usize, scopes: &Vec<Scope>, out: &mut Vec<Binding>)
    requires
        i < tree@.len(),
    ensures
        views(final(out)@)
            == views(old(out)@) + definitions_in(tree@, scopes@, i + 1, tree@.after(i as int)),
{
    let hi: usize = tree.after(i);
    let mut lo: usize = i + 1;
    while lo < hi
        invariant
            i < lo,
            i < tree@.len(),
            hi == tree@.after(i as int),
            hi <= tree@.len(),
            views(out@) + definitions_in(tree@, scopes@, lo as int, hi as int) == views(old(out)@)
                + definitions_in(tree@, scopes@, i + 1, hi as int),
        decreases hi - lo,
    {
        if tree.is(lo, "initialized_variable_definition") {
            push_local(tree, lo, scopes, lo, out);
            push_more_locals(tree, lo, scopes, lo, out);
        }
        lo = tree.next(lo, hi);
    }
}

/// The name that the parameter `i` introduces, with its type.
pub open spec fn param_at(t: Syntax, scopes: Seq<Scope>, i: int) -> Seq<BindingView> {
    match t.field_text(i, "name"@) {
        Some(name) => if t.named(i) && t.kind(i) == "formal_parameter"@ {
            seq![
                local_binding(scopes, name, t.start(i), BindingKind::Param, written_type(t, i)),
            ]
        } else {
            Seq::empty()
        },
        None => Seq::empty(),
    }
}

/// The names that the parameters among `lo..hi` introduce.
pub open spec fn params_in(t: Syntax, scopes: Seq<Scope>, lo: int, hi: int) -> Seq<BindingView>
    decreases hi - lo,
{
    if lo >= hi {
        Seq::empty()
    } else {
        param_at(t, scopes, lo) + params_in(t, scopes, t.next(lo, hi), hi)
    }
}

/// Adds the names that the parameters in the list `i` introduce.
fn collect_params(tree: &SyntaxTree, i: usize, scopes: &Vec<Scope>, out: &mut Vec<Binding>)
    requires
        i < tree@.len(),
    ensures
        views(final(out)@)
            == views(old(out)@) + params_in(tree@, scopes@, i + 1, tree@.after(i as int)),
{
    let hi: usize = tree.after(i);
    let mut lo: usize = i + 1;
    while lo < hi
        invariant
            i < lo,
            i < tree@.len(),
            hi == tree@.after(i as int),
            hi <= tree@.len(),
            views(out@) + params_in(tree@, scopes@, lo as int, hi as int) == views(old(out)@)
                + params_in(tree@, scopes@, i + 1, hi as int),
        decreases hi - lo,
    {
        if tree.named(lo) && tree.is(lo, "formal_parameter") {
            if let Some(name) = tree.field_text(lo, "name") {
                let declared_type = read_written_type(tree, lo);
                push_typed_binding(
                    out,
                    name,
                    tree.start(lo),
                    BindingKind::Param,
                    scopes,
                    declared_type,
                );
            }
        }
        lo = tree.next(lo, hi);
    }
}

/// The parameters of the function `i`: those of its function signature, or those
/// of its signature itself.
pub open spec fn parameters_of(t: Syntax, i: int) -> Option<int> {
    match t.child(i, "signature"@) {
        Some(s) => match t.child_of_kind(s, "function_signature"@) {
            Some(f) => match t.child(f, "parameters"@) {
                Some(params) => Some(params),
                None => t.child(s, "parameters"@),
            },
            None => t.child(s, "parameters"@),
        },
        None => None,
    }
}

/// The parameters of the function `i`.
fn find_parameters(tree: &SyntaxTree, i: usize) -> (params: Option<usize>)
    requires
        i < tree@.len(),
    ensures
        opt_index(params) == parameters_of(tree@, i as int),
        params matches Some(p) ==> p < tree@.len(),
{
    let s: usize = match tree.child(i, "signature") {
        Some(s) => s,
        None => {
            return None;
        },
    };
    if let Some(f) = tree.child_of_kind(s, "function_signature") {
        if let Some(params) = tree.child(f, "parameters") {
            return Some(params);
        }
    }
    tree.child(s, "parameters")
}

/// The names that node `i` itself introduces: the parameters of a function, and
/// the variables of a declaration.
pub open spec fn introduced(t: Syntax, scopes: Seq<Scope>, i: int) -> Seq<BindingView> {
    if t.kind(i) == "function_declaration"@ || t.kind(i) == "method_declaration"@ {
        match parameters_of(t, i) {
            Some(params) => params_in(t, scopes, params + 1, t.after(params)),
            None => Seq::empty(),
        }
    } else if t.kind(i) == "local_variable_declaration"@ {
        definitions_in(t, scopes, i + 1, t.after(i))
    } else {
        Seq::empty()
    }
}

/// The names that are introduced in the subtree of node `i`.
pub open spec fn bindings_at(t: Syntax, scopes: Seq<Scope>, i: int) -> Seq<BindingView>
    decreases t.left(i), 0nat,
{
    if !t.has(i) {
        Seq::empty()
    } else {
        introduced(t, scopes, i) + bindings_in(t, scopes, i + 1, t.after(i))
    }
}

/// The names that are introduced in the subtrees of the nodes `lo..hi`.
pub open spec fn bindings_in(t: Syntax, scopes: Seq<Scope>, lo: int, hi: int) -> Seq<BindingView>
    decreases t.left(lo), 1nat,
{
    if lo >= hi || !t.has(lo) {
        Seq::empty()
    } else {
        bindings_at(t, scopes, lo) + bindings_in(t, scopes, t.next(lo, hi), hi)
    }
}

/// Adds the names that are introduced in the subtree of node `i`.
fn collect_bindings_dfs(tree: &SyntaxTree, i: usize, scopes: &Vec<Scope>, out: &mut Vec<Binding>)
    requires
        i < tree@.len(),
    ensures
        views(final(out)@) == views(old(out)@) + bindings_at(tree@, scopes@, i as int),
    decreases tree@.left(i as int),
{
    if tree.is(i, "function_declaration") || tree.is(i, "method_declaration") {
        if let Some(params) = find_parameters(tree, i) {
            collect_params(tree, params, scopes, out);
        }
    } else if tree.is(i, "local_variable_declaration") {
        push_definitions(tree, i, scopes, out);
    }
    let hi: usize = tree.after(i);
    let mut lo: usize = i + 1;
    while lo < hi
        invariant
            i < lo,
            i < tree@.len(),
            hi == tree@.after(i as int),
            hi <= tree@.len(),
            views(out@) + bindings_in(tree@, scopes@, lo as int, hi as int) == views(old(out)@)
                + bindings_at(tree@, scopes@, i as int),
        decreases hi - lo,
    {
        collect_bindings_dfs(tree, lo, scopes, out);
        lo = tree.next(lo, hi);
    }
}

/// The names that are introduced of node `i` itself, for each `i`.
pub open spec fn bindings_of_nodes(
    t: Syntax,
    scopes: Seq<Scope>,
) -> spec_fn(int) -> Seq<BindingView> {
    |j: int| introduced(t, scopes, j)
}

/// The names that are introduced in a subtree are those of its nodes, in
/// document order: none is missed and none is reported twice.
pub proof fn bindings_in_document_order(t: Syntax, scopes: Seq<Scope>, i: int)
    requires
        t.nested(),
        t.has(i),
    ensures
        bindings_at(t, scopes, i) == in_order(bindings_of_nodes(t, scopes), i, t.after(i)),
    decreases t.left(i), 0nat,
{
    let items = bindings_of_nodes(t, scopes);
    bindings_of_siblings(t, scopes, i + 1, t.after(i));
    assert(in_order(items, i, t.after(i)) == items(i) + in_order(items, i + 1, t.after(i)));
    assert(Seq::<BindingView>::empty() + items(i) =~= items(i) + Seq::<BindingView>::empty());
}

proof fn bindings_of_siblings(t: Syntax, scopes: Seq<Scope>, lo: int, hi: int)
    requires
        t.nested(),
        t.closed_range(lo, hi),
    ensures
        bindings_in(t, scopes, lo, hi) == in_order(bindings_of_nodes(t, scopes), lo, hi),
    decreases t.left(lo), 1nat,
{
    if lo < hi {
        let items = bindings_of_nodes(t, scopes);
        bindings_in_document_order(t, scopes, lo);
        bindings_of_siblings(t, scopes, t.after(lo), hi);
        in_order_split(items, lo, t.after(lo), hi);
    }
}

/// The names that are introduced in a Dart file below the file as a whole.
fn collect_bindings(tree: &SyntaxTree, scopes: &Vec<Scope>) -> (out: Vec<Binding>)
    ensures
        views(out@) == bindings_at(tree@, scopes@, 0),
{
    let mut out: Vec<Binding> = Vec::new();
    proof {
        views_empty::<Binding>();
    }
    if tree.len() > 0 {
        collect_bindings_dfs(tree, 0, scopes, &mut out);
    }
    out
}

// ── Facts ────────────────────────────────────────────────────────────────────

/// The calls: names that are called, with what they are members of.
pub const CALL_QUERY: &'static str = r#"
[
  (call_expression function: (identifier) @callee)
  (call_expression function: (member_expression object: (_) @qualifier property: (identifier) @callee))
  (call_expression function: (member_expression object: "this" property: (identifier) @callee))
]
"#;

/// The calls of members of `this`. They are among those of [`CALL_QUERY`], so a
/// query of its own keeps each call from being reported twice.
pub const SELF_CALL_QUERY: &'static str = r#"
(call_expression function: (member_expression object: "this" property: (identifier) @callee))
"#;

/// The references of a Dart file, without their scopes.
pub open spec fn references_of(
    t: Syntax,
    file: Seq<char>,
    module: Seq<char>,
    found: Seq<Seq<CaptureView>>,
    on_self: Seq<Seq<CaptureView>>,
) -> Seq<ReferenceView> {
    calls_marked(t.source, file, found, on_self) + inherits_at(t, file, 0)
        + imports_at(t, file, module, 0) + type_refs_at(t, file, 0) + reads_at(t, file, 0)
        + writes_at(t, file, 0)
}

/// The facts of a Dart file with the nodes `t`, where `found` and `on_self` are the matches
/// of the queries on calls.
pub open spec fn facts_of(
    t: Syntax,
    file: Seq<char>,
    found: Seq<Seq<CaptureView>>,
    on_self: Seq<Seq<CaptureView>>,
) -> FileFactsView {
    let source_len = byte_count(t.source) as int;
    let ns = namespaces_of(file);
    let defs = symbols_in(
        Ctx { tree: t, file, lang: Language::Dart },
        namespace_steps(ns),
        1,
        t.after(0),
    );
    let module = module_view(Language::Dart, ns, file, source_len);
    let scopes = scopes_of(t, source_len);
    let references = all_scoped(
        scopes,
        references_of(t, file, scip_text(module.id), found, on_self),
    );
    FileFactsView {
        file,
        lang: Language::Dart.tag(),
        symbols: defs + seq![module],
        references,
        scopes,
        bindings: bindings_at(t, scopes, 0) + definitions_bound(defs) + imports_bound(
            scopes,
            references,
        ),
        ffi_exports: Seq::empty(),
    }
}

/// The facts of a Dart file, from its nodes and the matches of the queries on
/// calls.
pub fn file_facts(
    tree: &SyntaxTree,
    file: &str,
    found: &Vec<Match>,
    on_self: &Vec<Match>,
) -> (facts: FileFacts)
    ensures
        facts@ == facts_of(tree@, file@, views(found@), views(on_self@)),
        coherent(facts@, byte_count(tree@.source) as int),
        imports_are_bound(facts@),
{
    let source_len: usize = byte_length(tree.source());
    let namespaces = dart_namespaces(file);
    let ctx = ExtractCtx { tree, file, lang: Language::Dart };
    let defs = collect_symbols(&ctx, &namespaces);
    let def_bindings = definition_bindings(&defs);
    let ghost own = views(defs@);
    let mut symbols = defs;
    let module = module_symbol(Language::Dart, namespaces.as_slice(), file, source_len);
    let module_id = module.id.to_scip_string();
    put(&mut symbols, module);
    let mut references = collect_call_references(tree.source(), file, found);
    mark_self_receiver_calls(&mut references, on_self);
    if tree.len() > 0 {
        collect_inheritance(tree, 0, file, &mut references);
        collect_imports(tree, 0, file, module_id.as_str(), &mut references);
        collect_type_references(tree, 0, file, &mut references);
        collect_read_references(tree, 0, file, &mut references);
        collect_write_references(tree, 0, file, &mut references);
    }
    assert(views(references@)
        =~= references_of(tree@, file@, module_id@, views(found@), views(on_self@)));
    let scopes = collect_scopes(tree, source_len);
    let ghost plain = views(references@);
    attach_reference_scopes(&mut references, &scopes);
    let mut bindings = collect_bindings(tree, &scopes);
    let ghost locals = views(bindings@);
    put_all(&mut bindings, def_bindings);
    put_all(&mut bindings, import_bindings(&references, &scopes));
    proof {
        views_empty::<FfiExport>();
    }
    let facts = FileFacts {
        file: file.to_owned(),
        lang: Language::Dart.as_str().to_owned(),
        symbols,
        references,
        scopes,
        bindings,
        ffi_exports: Vec::new(),
    };
    proof {
        let imports = imports_bound(facts@.scopes, facts@.references);
        facts_are_coherent(facts@, own, plain, locals, imports, source_len as int);
        facts_bind_imports(facts@, locals + definitions_bound(own));
    }
    facts
}

/// Reads Dart files.
pub struct DartExtractor;

impl Extractor for DartExtractor {
    open spec fn language(&self) -> Language {
        Language::Dart
    }

    open spec fn facts(&self, tree: tree_sitter::Tree, file: Seq<char>) -> Result<
        FileFactsView,
        ErrorView,
    > {
        match (
            answer_to(tree, CALL_QUERY@),
            answer_to(tree, SELF_CALL_QUERY@),
        ) {
            (Some(found), Some(on_self)) => Ok(
                facts_of(syntax_of(tree), file, found, on_self),
            ),
            _ => Err(ErrorView::Query { path: file }),
        }
    }

    fn lang(&self) -> (lang: Language) {
        Language::Dart
    }

    fn extract_facts(&self, source: &str, file: &str) -> (result: Result<
        FileFacts,
        CodegraphError,
    >) {
        let parsed = match parse(Language::Dart, source) {
            Some(parsed) => parsed,
            None => {
                return Err(CodegraphError::Parse { path: file.to_owned() });
            },
        };
        if let Some(found) = parsed.query(CALL_QUERY) {
            if let Some(on_self) = parsed.query(SELF_CALL_QUERY) {
                return Ok(file_facts(parsed.syntax(), file, &found, &on_self));
            }
        }
        Err(CodegraphError::Query { path: file.to_owned() })
    }
}

} // verus!
