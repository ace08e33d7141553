//! The facts of C++ files.

use crate::error::{CodegraphError, ErrorView};
use crate::graph::types::{
    Binding, BindingKind, BindingView, ByteSpan, EntryPoint, EntryPointView, FfiExport, FileFacts,
    FileFactsView, RefRole, Reference, ReferenceView, Scope, ScopeId, ScopeKind, Symbol, SymbolKind,
    SymbolView, TypeRefContext, Visibility,
};
use crate::items::{
    copy_names, in_order, in_order_none, in_order_split, put, put_all, views, views_empty,
};
use crate::lang::Language;
use crate::parse::{answer_to, parse, syntax_of, CaptureView, Match};
use crate::symbol::{method_view, namespace_steps, Descriptor, DescriptorView};
use crate::syntax::{group_child_bounds, opt_index, Syntax, SyntaxTree};
use crate::text::{
    after_last_part, after_last_part_text, byte_count, byte_length, ends_with, has_prefix,
    has_suffix, is_empty, opt_text, pieces, same, segments, simple_name, simple_type_name,
    split_pieces, split_segments, starts_with, strip_prefix, strip_suffix, without_prefix,
    without_suffix,
};
use vstd::prelude::*;

use super::{
    add_entry_point, all_scoped, are_file_scopes, attach_reference_scopes, calls_qualified,
    coherent, collect_call_references, define, defined_at, definition_bindings, definitions_bound,
    extends, facts_are_coherent, holds_declarations, innermost, innermost_scope, is_reportable,
    is_scope_tree, is_section, is_static, local_binding, mark_receiver_qualifier_calls,
    mark_self_receiver_calls, module_scope, module_symbol, module_view, nests_under, node_span,
    push_binding, push_ref, push_scope, push_type_ref, push_typed_binding, reference_at, reportable,
    scopes_nest, span_at, spans_nest, static_at, type_reference_at, Ctx, ExtractCtx, Extractor,
};

verus! {

broadcast use group_child_bounds;

// ── Namespaces ───────────────────────────────────────────────────────────────

/// A path without the extension of a C++ or C file, where it has one.
pub open spec fn stem_of(file: Seq<char>) -> Seq<char> {
    if has_suffix(file, ".cc"@) {
        without_suffix(file, ".cc"@)
    } else if has_suffix(file, ".cpp"@) {
        without_suffix(file, ".cpp"@)
    } else if has_suffix(file, ".cxx"@) {
        without_suffix(file, ".cxx"@)
    } else if has_suffix(file, ".hh"@) {
        without_suffix(file, ".hh"@)
    } else if has_suffix(file, ".hpp"@) {
        without_suffix(file, ".hpp"@)
    } else if has_suffix(file, ".hxx"@) {
        without_suffix(file, ".hxx"@)
    } else if has_suffix(file, ".c"@) {
        without_suffix(file, ".c"@)
    } else {
        without_suffix(file, ".h"@)
    }
}

/// The namespaces of a C++ file: the pieces of its path without `src/` in front
/// and without its extension.
pub open spec fn namespaces_of(file: Seq<char>) -> Seq<Seq<char>> {
    segments(without_prefix(stem_of(file), "src/"@), '/')
}

/// The namespaces of a C++ file.
pub fn cpp_namespaces(file: &str) -> (namespaces: Vec<String>)
    ensures
        views(namespaces@) == namespaces_of(file@),
{
    let stem = if ends_with(file, ".cc") {
        strip_suffix(file, ".cc")
    } else if ends_with(file, ".cpp") {
        strip_suffix(file, ".cpp")
    } else if ends_with(file, ".cxx") {
        strip_suffix(file, ".cxx")
    } else if ends_with(file, ".hh") {
        strip_suffix(file, ".hh")
    } else if ends_with(file, ".hpp") {
        strip_suffix(file, ".hpp")
    } else if ends_with(file, ".hxx") {
        strip_suffix(file, ".hxx")
    } else if ends_with(file, ".c") {
        strip_suffix(file, ".c")
    } else {
        strip_suffix(file, ".h")
    };
    split_segments(strip_prefix(stem, "src/"), '/')
}

/// The steps of a list of namespaces.
pub fn namespace_prefix(namespaces: &[String]) -> (prefix: Vec<Descriptor>)
    ensures
        views(prefix@) == namespace_steps(views(namespaces@)),
{
    let mut prefix: Vec<Descriptor> = Vec::new();
    let mut i: usize = 0;
    while i < namespaces.len()
        invariant
            i <= namespaces@.len(),
            prefix@.len() == i,
            forall|j: int|
                0 <= j < i ==> #[trigger] prefix@[j]@ == DescriptorView::Namespace(namespaces@[j]@),
        decreases namespaces@.len() - i,
    {
        prefix.push(Descriptor::Namespace(namespaces[i].as_str().to_owned()));
        i += 1;
    }
    assert(views(prefix@) =~= namespace_steps(views(namespaces@)));
    prefix
}

// ── Declarators ──────────────────────────────────────────────────────────────

/// Whether node `i` is a name in a declarator.
pub open spec fn is_name(t: Syntax, i: int) -> bool {
    t.kind(i) == "identifier"@ || t.kind(i) == "type_identifier"@ || t.kind(i)
        == "field_identifier"@ || t.kind(i) == "destructor_name"@ || t.kind(i) == "operator_name"@
}

/// The name that the declarator `i` introduces, and whether it is the name of a
/// function. Of a qualified name it is the last part.
pub open spec fn declared(t: Syntax, i: int) -> Option<(Seq<char>, bool)>
    decreases t.left(i), 0nat,
{
    if !t.has(i) {
        None
    } else if is_name(t, i) {
        Some((t.text(i), false))
    } else if t.kind(i) == "qualified_identifier"@ {
        Some((after_last_part(t.text(i), "::"@), false))
    } else if t.kind(i) == "function_declarator"@ {
        match t.child(i, "declarator"@) {
            Some(inner) => match declared(t, inner) {
                Some(found) => Some((found.0, true)),
                None => None,
            },
            None => None,
        }
    } else {
        match t.child(i, "declarator"@) {
            Some(inner) => declared(t, inner),
            None => declared_in(t, i + 1, t.after(i)),
        }
    }
}

/// The first name that one of the declarators `lo..hi` introduces.
pub open spec fn declared_in(t: Syntax, lo: int, hi: int) -> Option<(Seq<char>, bool)>
    decreases t.left(lo), 1nat,
{
    if lo >= hi || !t.has(lo) {
        None
    } else {
        match declared(t, lo) {
            Some(found) => Some(found),
            None => declared_in(t, t.next(lo, hi), hi),
        }
    }
}

/// A name and a flag, by their contents.
pub open spec fn opt_named(found: Option<(String, bool)>) -> Option<(Seq<char>, bool)> {
    match found {
        Some(pair) => Some((pair.0@, pair.1)),
        None => None,
    }
}

/// The name that the declarator `i` introduces, and whether it is the name of a
/// function.
fn declarator_name(tree: &SyntaxTree, i: usize) -> (found: Option<(String, bool)>)
    requires
        i < tree@.len(),
    ensures
        opt_named(found) == declared(tree@, i as int),
    decreases tree@.left(i as int),
{
    if tree.is(i, "identifier") || tree.is(i, "type_identifier") || tree.is(i, "field_identifier")
        || tree.is(i, "destructor_name") || tree.is(i, "operator_name") {
        return Some((tree.text(i).to_owned(), false));
    }
    if tree.is(i, "qualified_identifier") {
        return Some((after_last_part_text(tree.text(i), "::").to_owned(), false));
    }
    if tree.is(i, "function_declarator") {
        return match tree.child(i, "declarator") {
            Some(inner) => match declarator_name(tree, inner) {
                Some((name, _)) => Some((name, true)),
                None => None,
            },
            None => None,
        };
    }
    if let Some(inner) = tree.child(i, "declarator") {
        return declarator_name(tree, inner);
    }
    let hi: usize = tree.after(i);
    let mut lo: usize = i + 1;
    while lo < hi
        invariant
            i < lo,
            i < tree@.len(),
            hi == tree@.after(i as int),
            hi <= tree@.len(),
            declared_in(tree@, lo as int, hi as int) == declared(tree@, i as int),
        decreases hi - lo,
    {
        if let Some(found) = declarator_name(tree, lo) {
            return Some(found);
        }
        lo = tree.next(lo, hi);
    }
    None
}

/// The first `function_declarator` on the way down the declarator `i`.
pub open spec fn function_declarator(t: Syntax, i: int) -> Option<int>
    decreases t.left(i), 0nat,
{
    if !t.has(i) {
        None
    } else if t.kind(i) == "function_declarator"@ {
        Some(i)
    } else {
        match t.child(i, "declarator"@) {
            Some(inner) => function_declarator(t, inner),
            None => function_declarator_in(t, i + 1, t.after(i)),
        }
    }
}

/// The first `function_declarator` of the declarators `lo..hi`.
pub open spec fn function_declarator_in(t: Syntax, lo: int, hi: int) -> Option<int>
    decreases t.left(lo), 1nat,
{
    if lo >= hi || !t.has(lo) {
        None
    } else {
        match function_declarator(t, lo) {
            Some(found) => Some(found),
            None => function_declarator_in(t, t.next(lo, hi), hi),
        }
    }
}

/// The first `function_declarator` on the way down the declarator `i`.
fn find_function_declarator(tree: &SyntaxTree, i: usize) -> (found: Option<usize>)
    requires
        i < tree@.len(),
    ensures
        opt_index(found) == function_declarator(tree@, i as int),
        found matches Some(f) ==> i <= f < tree@.len(),
    decreases tree@.left(i as int),
{
    if tree.is(i, "function_declarator") {
        return Some(i);
    }
    if let Some(inner) = tree.child(i, "declarator") {
        return find_function_declarator(tree, inner);
    }
    let hi: usize = tree.after(i);
    let mut lo: usize = i + 1;
    while lo < hi
        invariant
            i < lo,
            i < tree@.len(),
            hi == tree@.after(i as int),
            hi <= tree@.len(),
            function_declarator_in(tree@, lo as int, hi as int) == function_declarator(
                tree@,
                i as int,
            ),
        decreases hi - lo,
    {
        if let Some(found) = find_function_declarator(tree, lo) {
            return Some(found);
        }
        lo = tree.next(lo, hi);
    }
    None
}

/// Whether the name that the declarator `i` introduces is qualified, as in
/// `Foo::bar`.
pub open spec fn qualified(t: Syntax, i: int) -> bool
    decreases t.left(i), 0nat,
{
    if !t.has(i) || is_name(t, i) {
        false
    } else if t.kind(i) == "qualified_identifier"@ {
        true
    } else {
        match t.child(i, "declarator"@) {
            Some(inner) => qualified(t, inner),
            None => qualified_in(t, i + 1, t.after(i)),
        }
    }
}

/// Whether the first name that one of the declarators `lo..hi` introduces is
/// qualified.
pub open spec fn qualified_in(t: Syntax, lo: int, hi: int) -> bool
    decreases t.left(lo), 1nat,
{
    if lo >= hi || !t.has(lo) {
        false
    } else if declared(t, lo) is Some {
        qualified(t, lo)
    } else {
        qualified_in(t, t.next(lo, hi), hi)
    }
}

/// Whether the name that the declarator `i` introduces is qualified.
fn is_qualified(tree: &SyntaxTree, i: usize) -> (b: bool)
    requires
        i < tree@.len(),
    ensures
        b == qualified(tree@, i as int),
    decreases tree@.left(i as int),
{
    if tree.is(i, "identifier") || tree.is(i, "type_identifier") || tree.is(i, "field_identifier")
        || tree.is(i, "destructor_name") || tree.is(i, "operator_name") {
        return false;
    }
    if tree.is(i, "qualified_identifier") {
        return true;
    }
    if let Some(inner) = tree.child(i, "declarator") {
        return is_qualified(tree, inner);
    }
    let hi: usize = tree.after(i);
    let mut lo: usize = i + 1;
    while lo < hi
        invariant
            i < lo,
            i < tree@.len(),
            hi == tree@.after(i as int),
            hi <= tree@.len(),
            qualified_in(tree@, lo as int, hi as int) == qualified(tree@, i as int),
        decreases hi - lo,
    {
        if declarator_name(tree, lo).is_some() {
            return is_qualified(tree, lo);
        }
        lo = tree.next(lo, hi);
    }
    false
}

/// The name of the type `i`: without its arguments and without what it is
/// qualified with.
pub open spec fn leaf_name(t: Syntax, i: int) -> Option<Seq<char>>
    decreases t.left(i),
{
    if !t.has(i) {
        None
    } else if t.kind(i) == "type_identifier"@ {
        Some(t.text(i))
    } else if t.kind(i) == "template_type"@ {
        match t.child(i, "name"@) {
            Some(name) => leaf_name(t, name),
            None => None,
        }
    } else if t.kind(i) == "qualified_identifier"@ {
        Some(after_last_part(t.text(i), "::"@))
    } else {
        None
    }
}

/// The name of the type `i`.
fn type_leaf_name(tree: &SyntaxTree, i: usize) -> (name: Option<String>)
    requires
        i < tree@.len(),
    ensures
        opt_text(name) == leaf_name(tree@, i as int),
    decreases tree@.left(i as int),
{
    if tree.is(i, "type_identifier") {
        Some(tree.text(i).to_owned())
    } else if tree.is(i, "template_type") {
        match tree.child(i, "name") {
            Some(name) => type_leaf_name(tree, name),
            None => None,
        }
    } else if tree.is(i, "qualified_identifier") {
        Some(after_last_part_text(tree.text(i), "::").to_owned())
    } else {
        None
    }
}

/// The name of the type of node `i`.
pub open spec fn typed_name(t: Syntax, i: int) -> Option<Seq<char>> {
    match t.child(i, "type"@) {
        Some(ty) => leaf_name(t, ty),
        None => None,
    }
}

/// The name of the type of node `i`.
fn declared_type_name(tree: &SyntaxTree, i: usize) -> (name: Option<String>)
    requires
        i < tree@.len(),
    ensures
        opt_text(name) == typed_name(tree@, i as int),
{
    match tree.child(i, "type") {
        Some(ty) => type_leaf_name(tree, ty),
        None => None,
    }
}

// ── Definitions ──────────────────────────────────────────────────────────────

/// A definition in a C++ file: it is named like the last step of its identity,
/// its signature ends where its body starts.
pub open spec fn definition(
    c: Ctx,
    prefix: Seq<DescriptorView>,
    i: int,
    leaf: DescriptorView,
    kind: SymbolKind,
    visibility: Visibility,
) -> SymbolView {
    defined_at(c, prefix, i, leaf.name(), kind, visibility, leaf, "{;"@)
}

/// Adds a definition.
fn push_symbol(
    out: &mut Vec<Symbol>,
    ctx: &ExtractCtx<'_>,
    i: usize,
    prefix: &Vec<Descriptor>,
    leaf: Descriptor,
    kind: SymbolKind,
    visibility: Visibility,
)
    ensures
        views(final(out)@) == views(old(out)@) + seq![
            definition(ctx@, views(prefix@), i as int, leaf@, kind, visibility),
        ],
{
    let name = leaf.name().to_owned();
    let symbol = define(ctx, prefix, i, name, kind, visibility, leaf, "{;");
    put(out, symbol);
}

/// The linkage of node `i`: internal where it is `static`.
pub open spec fn linkage(t: Syntax, i: int) -> Visibility {
    if static_at(t, i) {
        Visibility::Private
    } else {
        Visibility::Public
    }
}

/// The linkage of node `i`.
fn linkage_of(tree: &SyntaxTree, i: usize) -> (visibility: Visibility)
    requires
        i < tree@.len(),
    ensures
        visibility == linkage(tree@, i as int),
{
    if is_static(tree, i) {
        Visibility::Private
    } else {
        Visibility::Public
    }
}

/// The kind of the type that node `i` defines, and who can see its members where
/// nothing says so.
pub open spec fn aggregate_kind(t: Syntax, i: int) -> Option<(SymbolKind, Visibility)> {
    if t.kind(i) == "class_specifier"@ {
        Some((SymbolKind::Class, Visibility::Private))
    } else if t.kind(i) == "struct_specifier"@ || t.kind(i) == "union_specifier"@ {
        Some((SymbolKind::Struct, Visibility::Public))
    } else if t.kind(i) == "enum_specifier"@ {
        Some((SymbolKind::Enum, Visibility::Public))
    } else {
        None
    }
}

/// Who can see the members behind the access specifier `i`.
pub open spec fn access(t: Syntax, i: int) -> Visibility {
    if has_prefix(t.text(i), "public"@) {
        Visibility::Public
    } else if has_prefix(t.text(i), "protected"@) {
        Visibility::Protected
    } else {
        Visibility::Private
    }
}

/// What the declarator `d` of the member `i` of a type introduces: an alias, a
/// method or a field.
pub open spec fn member_symbol(
    c: Ctx,
    prefix: Seq<DescriptorView>,
    visibility: Visibility,
    i: int,
    d: int,
) -> Seq<SymbolView> {
    let t = c.tree;
    match declared(t, d) {
        Some((name, is_function)) => if t.kind(i) == "type_definition"@ {
            let leaf = DescriptorView::Type(name);
            seq![definition(c, prefix, i, leaf, SymbolKind::TypeAlias, visibility)]
        } else if is_function || t.kind(i) == "function_definition"@ {
            seq![definition(c, prefix, i, method_view(name), SymbolKind::Method, visibility)]
        } else {
            let leaf = DescriptorView::Term(name);
            seq![definition(c, prefix, i, leaf, SymbolKind::Static, visibility)]
        },
        None => Seq::empty(),
    }
}

/// Adds what the declarator `d` of the member `i` of a type introduces.
fn push_member(
    ctx: &ExtractCtx<'_>,
    i: usize,
    prefix: &Vec<Descriptor>,
    visibility: Visibility,
    d: usize,
    out: &mut Vec<Symbol>,
)
    requires
        i < ctx.tree@.len(),
        d < ctx.tree@.len(),
    ensures
        views(final(out)@) == views(old(out)@) + member_symbol(
            ctx@,
            views(prefix@),
            visibility,
            i as int,
            d as int,
        ),
{
    let tree = ctx.tree;
    if let Some((name, is_function)) = declarator_name(tree, d) {
        if tree.is(i, "type_definition") {
            let leaf = Descriptor::Type(name);
            push_symbol(out, ctx, i, prefix, leaf, SymbolKind::TypeAlias, visibility);
        } else if is_function || tree.is(i, "function_definition") {
            let leaf = Descriptor::method(name);
            push_symbol(out, ctx, i, prefix, leaf, SymbolKind::Method, visibility);
        } else {
            let leaf = Descriptor::Term(name);
            push_symbol(out, ctx, i, prefix, leaf, SymbolKind::Static, visibility);
        }
    }
}

/// What the declarators among `lo..hi` of the member `owner` of a type introduce.
pub open spec fn member_declarators_in(
    c: Ctx,
    prefix: Seq<DescriptorView>,
    visibility: Visibility,
    owner: int,
    lo: int,
    hi: int,
) -> Seq<SymbolView>
    decreases hi - lo,
{
    if lo >= hi {
        Seq::empty()
    } else {
        (if c.tree.in_field(lo, "declarator"@) {
            member_symbol(c, prefix, visibility, owner, lo)
        } else {
            Seq::empty()
        }) + member_declarators_in(c, prefix, visibility, owner, c.tree.next(lo, hi), hi)
    }
}

/// Adds what the declarators under node `i` of the member `owner` of a type
/// introduce.
fn push_member_declarators(
    ctx: &ExtractCtx<'_>,
    i: usize,
    prefix: &Vec<Descriptor>,
    visibility: Visibility,
    owner: usize,
    out: &mut Vec<Symbol>,
)
    requires
        i < ctx.tree@.len(),
        owner < ctx.tree@.len(),
    ensures
        views(final(out)@)
            == views(old(out)@)
                + member_declarators_in(
                    ctx@,
                    views(prefix@),
                    visibility,
                    owner as int,
                    i + 1,
                    ctx.tree@.after(i as int),
                ),
{
    let tree = ctx.tree;
    let hi: usize = tree.after(i);
    let mut lo: usize = i + 1;
    while lo < hi
        invariant
            i < lo,
            i < tree@.len(),
            tree == ctx.tree,
            owner < tree@.len(),
            hi == tree@.after(i as int),
            hi <= tree@.len(),
            views(out@)
                + member_declarators_in(
                    ctx@,
                    views(prefix@),
                    visibility,
                    owner as int,
                    lo as int,
                    hi as int,
                )
                == views(old(out)@)
                + member_declarators_in(
                    ctx@,
                    views(prefix@),
                    visibility,
                    owner as int,
                    i + 1,
                    hi as int,
                ),
        decreases hi - lo,
    {
        if tree.in_field(lo, "declarator") {
            push_member(ctx, owner, prefix, visibility, lo, out);
        }
        lo = tree.next(lo, hi);
    }
}

/// What the member `i` of a type defines, apart from the types in it: methods,
/// fields and aliases.
pub open spec fn member_symbols(
    c: Ctx,
    prefix: Seq<DescriptorView>,
    visibility: Visibility,
    i: int,
) -> Seq<SymbolView> {
    let t = c.tree;
    if t.kind(i) == "function_definition"@ || holds_types(t, i) {
        member_declarators_in(c, prefix, visibility, i, i + 1, t.after(i))
    } else {
        match t.field_text(i, "name"@) {
            Some(name) => if t.kind(i) == "alias_declaration"@ {
                let leaf = DescriptorView::Type(name);
                seq![definition(c, prefix, i, leaf, SymbolKind::TypeAlias, visibility)]
            } else {
                Seq::empty()
            },
            None => Seq::empty(),
        }
    }
}

/// Whether the member `i` of a type is a declaration whose type can be a type that
/// stands in it.
pub open spec fn holds_types(t: Syntax, i: int) -> bool {
    t.kind(i) == "field_declaration"@ || t.kind(i) == "declaration"@ || t.kind(i)
        == "type_definition"@
}

/// Adds what the member `i` of a type defines, apart from the types in it.
fn push_members(
    ctx: &ExtractCtx<'_>,
    i: usize,
    prefix: &Vec<Descriptor>,
    visibility: Visibility,
    out: &mut Vec<Symbol>,
)
    requires
        i < ctx.tree@.len(),
    ensures
        views(final(out)@) == views(old(out)@) + member_symbols(
            ctx@,
            views(prefix@),
            visibility,
            i as int,
        ),
{
    let tree = ctx.tree;
    if tree.is(i, "function_definition") || tree.is(i, "field_declaration") || tree.is(
        i,
        "declaration",
    ) || tree.is(i, "type_definition") {
        push_member_declarators(ctx, i, prefix, visibility, i, out);
    } else if tree.is(i, "alias_declaration") {
        if let Some(name) = tree.field_text(i, "name") {
            let leaf = Descriptor::Type(name);
            push_symbol(out, ctx, i, prefix, leaf, SymbolKind::TypeAlias, visibility);
        }
    }
}

/// Whether node `i` is what a template declaration declares.
pub open spec fn is_templated(t: Syntax, i: int) -> bool {
    t.kind(i) == "function_definition"@ || t.kind(i) == "declaration"@ || t.kind(i)
        == "alias_declaration"@ || t.kind(i) == "class_specifier"@ || t.kind(i)
        == "struct_specifier"@ || t.kind(i) == "union_specifier"@ || t.kind(i)
        == "template_declaration"@
}

/// Whether node `i` is what a template declaration declares.
fn is_template_part(tree: &SyntaxTree, i: usize) -> (b: bool)
    ensures
        b == is_templated(tree@, i as int),
{
    tree.is(i, "function_definition") || tree.is(i, "declaration") || tree.is(
        i,
        "alias_declaration",
    ) || tree.is(i, "class_specifier") || tree.is(i, "struct_specifier") || tree.is(
        i,
        "union_specifier",
    ) || tree.is(i, "template_declaration")
}

/// The type that node `i` defines, with its members, where `visibility` says who
/// can see the type. One without a body is only a mention. The members of an enum
/// are not reported.
pub open spec fn aggregate_at(
    c: Ctx,
    ns: Seq<Seq<char>>,
    visibility: Visibility,
    i: int,
) -> Seq<SymbolView>
    decreases c.tree.left(i), 0nat,
{
    let t = c.tree;
    if !t.has(i) {
        Seq::empty()
    } else {
        match (aggregate_kind(t, i), t.child(i, "body"@), t.child(i, "name"@)) {
            (Some((kind, default)), Some(body), Some(n)) => match leaf_name(t, n) {
                Some(name) => seq![
                    definition(
                        c,
                        namespace_steps(ns),
                        i,
                        DescriptorView::Type(name),
                        kind,
                        visibility,
                    ),
                ] + if kind == SymbolKind::Enum {
                    Seq::empty()
                } else {
                    members_in(c, ns, name, default, body + 1, t.after(body))
                },
                None => Seq::empty(),
            },
            _ => Seq::empty(),
        }
    }
}

/// What the members `lo..hi` of the type `name` define. An access specifier says
/// who can see those behind it.
pub open spec fn members_in(
    c: Ctx,
    ns: Seq<Seq<char>>,
    name: Seq<char>,
    visibility: Visibility,
    lo: int,
    hi: int,
) -> Seq<SymbolView>
    decreases c.tree.left(lo), 2nat,
{
    let t = c.tree;
    if lo >= hi || !t.has(lo) {
        Seq::empty()
    } else if t.kind(lo) == "access_specifier"@ {
        members_in(c, ns, name, access(t, lo), t.next(lo, hi), hi)
    } else {
        member_at(c, ns, name, visibility, lo) + members_in(
            c,
            ns,
            name,
            visibility,
            t.next(lo, hi),
            hi,
        )
    }
}

/// What the member `i` of the type `name` defines: methods, fields, aliases, and
/// types, which stand under the type that they are in. A template is what it
/// declares; a section that is compiled under a condition is what it holds.
pub open spec fn member_at(
    c: Ctx,
    ns: Seq<Seq<char>>,
    name: Seq<char>,
    visibility: Visibility,
    i: int,
) -> Seq<SymbolView>
    decreases c.tree.left(i), 1nat,
{
    let t = c.tree;
    let prefix = namespace_steps(ns) + seq![DescriptorView::Type(name)];
    if !t.has(i) {
        Seq::empty()
    } else if aggregate_kind(t, i) is Some {
        aggregate_at(c, ns + seq![name], visibility, i)
    } else if t.kind(i) == "template_declaration"@ {
        templated_members_in(c, ns, name, visibility, i + 1, t.after(i))
    } else if is_section(t, i) {
        members_in(c, ns, name, visibility, i + 1, t.after(i))
    } else if holds_types(t, i) {
        (match t.child(i, "type"@) {
            Some(ty) => aggregate_at(c, ns + seq![name], visibility, ty),
            None => Seq::empty(),
        }) + member_symbols(c, prefix, visibility, i)
    } else {
        member_symbols(c, prefix, visibility, i)
    }
}

/// What the parts `lo..hi` of a template declaration among the members of the type
/// `name` define.
pub open spec fn templated_members_in(
    c: Ctx,
    ns: Seq<Seq<char>>,
    name: Seq<char>,
    visibility: Visibility,
    lo: int,
    hi: int,
) -> Seq<SymbolView>
    decreases c.tree.left(lo), 2nat,
{
    if lo >= hi || !c.tree.has(lo) {
        Seq::empty()
    } else {
        (if is_templated(c.tree, lo) {
            member_at(c, ns, name, visibility, lo)
        } else {
            Seq::empty()
        }) + templated_members_in(c, ns, name, visibility, c.tree.next(lo, hi), hi)
    }
}

/// Whether node `i` is the definition or the mention of a type.
fn is_aggregate(tree: &SyntaxTree, i: usize) -> (b: bool)
    ensures
        b == (aggregate_kind(tree@, i as int) is Some),
{
    tree.is(i, "class_specifier") || tree.is(i, "struct_specifier") || tree.is(i, "union_specifier")
        || tree.is(i, "enum_specifier")
}

/// Adds the type that node `i` defines, with its members.
fn emit_aggregate(
    ctx: &ExtractCtx<'_>,
    i: usize,
    ns: &Vec<String>,
    visibility: Visibility,
    out: &mut Vec<Symbol>,
)
    requires
        i < ctx.tree@.len(),
    ensures
        views(final(out)@) == views(old(out)@) + aggregate_at(
            ctx@,
            views(ns@),
            visibility,
            i as int,
        ),
    decreases ctx.tree@.left(i as int), 1nat,
{
    let tree = ctx.tree;
    let (kind, default) = if tree.is(i, "class_specifier") {
        (SymbolKind::Class, Visibility::Private)
    } else if tree.is(i, "struct_specifier") || tree.is(i, "union_specifier") {
        (SymbolKind::Struct, Visibility::Public)
    } else if tree.is(i, "enum_specifier") {
        (SymbolKind::Enum, Visibility::Public)
    } else {
        return ;
    };
    if let Some(body) = tree.child(i, "body") {
        if let Some(n) = tree.child(i, "name") {
            if let Some(name) = type_leaf_name(tree, n) {
                let prefix = namespace_prefix(ns.as_slice());
                let leaf = Descriptor::Type(name.as_str().to_owned());
                push_symbol(out, ctx, i, &prefix, leaf, kind, visibility);
                if kind != SymbolKind::Enum {
                    collect_members(ctx, body, ns, name.as_str(), default, out);
                }
            }
        }
    }
}

/// Names, by their contents, with one more behind them.
fn with_name(ns: &Vec<String>, name: &str) -> (more: Vec<String>)
    ensures
        views(more@) == views(ns@) + seq![name@],
{
    let mut more = copy_names(ns);
    put(&mut more, name.to_owned());
    more
}

/// Adds what the members in the body `i` of the type `name` define.
fn collect_members(
    ctx: &ExtractCtx<'_>,
    i: usize,
    ns: &Vec<String>,
    name: &str,
    visibility: Visibility,
    out: &mut Vec<Symbol>,
)
    requires
        i < ctx.tree@.len(),
    ensures
        views(final(out)@) == views(old(out)@) + members_in(
            ctx@,
            views(ns@),
            name@,
            visibility,
            i + 1,
            ctx.tree@.after(i as int),
        ),
    decreases ctx.tree@.left(i as int), 0nat,
{
    let tree = ctx.tree;
    let mut current = visibility;
    let hi: usize = tree.after(i);
    let mut lo: usize = i + 1;
    while lo < hi
        invariant
            i < lo,
            i < tree@.len(),
            tree == ctx.tree,
            hi == tree@.after(i as int),
            hi <= tree@.len(),
            views(out@) + members_in(ctx@, views(ns@), name@, current, lo as int, hi as int)
                == views(old(out)@) + members_in(
                ctx@,
                views(ns@),
                name@,
                visibility,
                i + 1,
                hi as int,
            ),
        decreases hi - lo,
    {
        if tree.is(lo, "access_specifier") {
            let text = tree.text(lo);
            current = if starts_with(text, "public") {
                Visibility::Public
            } else if starts_with(text, "protected") {
                Visibility::Protected
            } else {
                Visibility::Private
            };
        } else {
            collect_member(ctx, lo, ns, name, current, out);
        }
        lo = tree.next(lo, hi);
    }
}

/// Adds what the member `i` of the type `name` defines.
fn collect_member(
    ctx: &ExtractCtx<'_>,
    i: usize,
    ns: &Vec<String>,
    name: &str,
    visibility: Visibility,
    out: &mut Vec<Symbol>,
)
    requires
        i < ctx.tree@.len(),
    ensures
        views(final(out)@) == views(old(out)@) + member_at(
            ctx@,
            views(ns@),
            name@,
            visibility,
            i as int,
        ),
    decreases ctx.tree@.left(i as int), 2nat,
{
    let tree = ctx.tree;
    let nested = with_name(ns, name);
    if is_aggregate(tree, i) {
        emit_aggregate(ctx, i, &nested, visibility, out);
    } else if tree.is(i, "template_declaration") {
        collect_templated_members(ctx, i, ns, name, visibility, out);
    } else if holds_declarations(tree, i) {
        collect_members(ctx, i, ns, name, visibility, out);
    } else {
        if tree.is(i, "field_declaration") || tree.is(i, "declaration") || tree.is(
            i,
            "type_definition",
        ) {
            if let Some(ty) = tree.child(i, "type") {
                emit_aggregate(ctx, ty, &nested, visibility, out);
            }
        }
        let mut prefix = namespace_prefix(ns.as_slice());
        put(&mut prefix, Descriptor::Type(name.to_owned()));
        push_members(ctx, i, &prefix, visibility, out);
    }
}

/// Adds what the template declaration `i` among the members of the type `name`
/// defines.
fn collect_templated_members(
    ctx: &ExtractCtx<'_>,
    i: usize,
    ns: &Vec<String>,
    name: &str,
    visibility: Visibility,
    out: &mut Vec<Symbol>,
)
    requires
        i < ctx.tree@.len(),
    ensures
        views(final(out)@) == views(old(out)@) + templated_members_in(
            ctx@,
            views(ns@),
            name@,
            visibility,
            i + 1,
            ctx.tree@.after(i as int),
        ),
    decreases ctx.tree@.left(i as int), 0nat,
{
    let tree = ctx.tree;
    let hi: usize = tree.after(i);
    let mut lo: usize = i + 1;
    while lo < hi
        invariant
            i < lo,
            i < tree@.len(),
            tree == ctx.tree,
            hi == tree@.after(i as int),
            hi <= tree@.len(),
            views(out@) + templated_members_in(
                ctx@,
                views(ns@),
                name@,
                visibility,
                lo as int,
                hi as int,
            ) == views(old(out)@) + templated_members_in(
                ctx@,
                views(ns@),
                name@,
                visibility,
                i + 1,
                hi as int,
            ),
        decreases hi - lo,
    {
        if is_template_part(tree, lo) {
            collect_member(ctx, lo, ns, name, visibility, out);
        }
        lo = tree.next(lo, hi);
    }
}

/// The function that node `i` defines outside of a type. One named `main`, without
/// a qualification, is where the program starts.
pub open spec fn function_symbols(c: Ctx, ns: Seq<Seq<char>>, i: int) -> Seq<SymbolView> {
    match c.tree.child(i, "declarator"@) {
        Some(d) => match declared(c.tree, d) {
            Some((name, _)) => seq![
                SymbolView {
                    entry_points: if name == "main"@ && !qualified(c.tree, d) {
                        seq![EntryPointView::Main]
                    } else {
                        Seq::empty()
                    },
                    ..definition(
                        c,
                        namespace_steps(ns),
                        i,
                        method_view(name),
                        SymbolKind::Function,
                        linkage(c.tree, i),
                    )
                },
            ],
            None => Seq::empty(),
        },
        None => Seq::empty(),
    }
}

/// Adds the function that node `i` defines outside of a type.
fn push_function(ctx: &ExtractCtx<'_>, i: usize, ns: &Vec<String>, out: &mut Vec<Symbol>)
    requires
        i < ctx.tree@.len(),
    ensures
        views(final(out)@) == views(old(out)@) + function_symbols(ctx@, views(ns@), i as int),
{
    let tree = ctx.tree;
    let visibility = linkage_of(tree, i);
    if let Some(d) = tree.child(i, "declarator") {
        if let Some((name, _)) = declarator_name(tree, d) {
            let is_main: bool = same(name.as_str(), "main") && !is_qualified(tree, d);
            let prefix = namespace_prefix(ns.as_slice());
            let leaf = Descriptor::method(name.as_str().to_owned());
            let mut symbol = define(
                ctx,
                &prefix,
                i,
                name,
                SymbolKind::Function,
                visibility,
                leaf,
                "{;",
            );
            if is_main {
                add_entry_point(&mut symbol, EntryPoint::Main);
                assert(symbol@.entry_points =~= seq![EntryPointView::Main]);
            }
            put(out, symbol);
        }
    }
}

/// The function or variable that the declarator `d` of the declaration `i`
/// introduces.
pub open spec fn declarator_symbol(c: Ctx, ns: Seq<Seq<char>>, i: int, d: int) -> Seq<SymbolView> {
    match declared(c.tree, d) {
        Some((name, is_function)) => if is_function {
            seq![
                definition(
                    c,
                    namespace_steps(ns),
                    i,
                    method_view(name),
                    SymbolKind::Function,
                    linkage(c.tree, i),
                ),
            ]
        } else {
            seq![
                definition(
                    c,
                    namespace_steps(ns),
                    i,
                    DescriptorView::Term(name),
                    SymbolKind::Static,
                    linkage(c.tree, i),
                ),
            ]
        },
        None => Seq::empty(),
    }
}

/// What the declarators among `lo..hi` of the declaration `owner` introduce.
pub open spec fn declarators_in(
    c: Ctx,
    ns: Seq<Seq<char>>,
    owner: int,
    lo: int,
    hi: int,
) -> Seq<SymbolView>
    decreases hi - lo,
{
    if lo >= hi {
        Seq::empty()
    } else {
        (if c.tree.in_field(lo, "declarator"@) {
            declarator_symbol(c, ns, owner, lo)
        } else {
            Seq::empty()
        }) + declarators_in(c, ns, owner, c.tree.next(lo, hi), hi)
    }
}

/// Adds what the declarators under node `i` of the declaration `owner` introduce.
fn push_declarators(
    ctx: &ExtractCtx<'_>,
    i: usize,
    ns: &Vec<String>,
    owner: usize,
    out: &mut Vec<Symbol>,
)
    requires
        i < ctx.tree@.len(),
        owner < ctx.tree@.len(),
    ensures
        views(final(out)@)
            == views(old(out)@)
                + declarators_in(ctx@, views(ns@), owner as int, i + 1, ctx.tree@.after(i as int)),
{
    let tree = ctx.tree;
    let hi: usize = tree.after(i);
    let mut lo: usize = i + 1;
    while lo < hi
        invariant
            i < lo,
            i < tree@.len(),
            tree == ctx.tree,
            owner < tree@.len(),
            hi == tree@.after(i as int),
            hi <= tree@.len(),
            views(out@) + declarators_in(ctx@, views(ns@), owner as int, lo as int, hi as int)
                == views(old(out)@)
                + declarators_in(ctx@, views(ns@), owner as int, i + 1, hi as int),
        decreases hi - lo,
    {
        if tree.in_field(lo, "declarator") {
            if let Some((name, is_function)) = declarator_name(tree, lo) {
                let prefix = namespace_prefix(ns.as_slice());
                let visibility = linkage_of(tree, owner);
                if is_function {
                    let leaf = Descriptor::method(name);
                    push_symbol(out, ctx, owner, &prefix, leaf, SymbolKind::Function, visibility);
                } else {
                    let leaf = Descriptor::Term(name);
                    push_symbol(out, ctx, owner, &prefix, leaf, SymbolKind::Static, visibility);
                }
            }
        }
        lo = tree.next(lo, hi);
    }
}

/// The alias `name` that node `i` introduces.
pub open spec fn alias_symbols(c: Ctx, ns: Seq<Seq<char>>, i: int, name: Option<Seq<char>>) -> Seq<
    SymbolView,
> {
    match name {
        Some(name) => seq![
            definition(
                c,
                namespace_steps(ns),
                i,
                DescriptorView::Type(name),
                SymbolKind::TypeAlias,
                Visibility::Public,
            ),
        ],
        None => Seq::empty(),
    }
}

/// The macro that node `i` defines.
pub open spec fn macro_symbols(c: Ctx, ns: Seq<Seq<char>>, i: int, kind: SymbolKind) -> Seq<
    SymbolView,
> {
    match c.tree.field_text(i, "name"@) {
        Some(name) => seq![
            definition(
                c,
                namespace_steps(ns),
                i,
                DescriptorView::Macro(name),
                kind,
                Visibility::Public,
            ),
        ],
        None => Seq::empty(),
    }
}

/// Adds the macro that node `i` defines.
fn push_macro(
    ctx: &ExtractCtx<'_>,
    i: usize,
    ns: &Vec<String>,
    kind: SymbolKind,
    out: &mut Vec<Symbol>,
)
    requires
        i < ctx.tree@.len(),
    ensures
        views(final(out)@) == views(old(out)@) + macro_symbols(ctx@, views(ns@), i as int, kind),
{
    if let Some(name) = ctx.tree.field_text(i, "name") {
        let prefix = namespace_prefix(ns.as_slice());
        push_symbol(out, ctx, i, &prefix, Descriptor::Macro(name), kind, Visibility::Public);
    }
}

/// The namespaces inside the namespace `i`: each part of its name is one more.
pub open spec fn inner_namespaces(t: Syntax, ns: Seq<Seq<char>>, i: int) -> Seq<Seq<char>> {
    match t.child(i, "name"@) {
        Some(name) => ns + pieces(t.text(name), "::"@),
        None => ns,
    }
}

/// Adds the alias `name` that node `i` introduces.
fn push_alias(ctx: &ExtractCtx<'_>, i: usize, ns: &Vec<String>, name: String, out: &mut Vec<Symbol>)
    ensures
        views(final(out)@) == views(old(out)@) + alias_symbols(
            ctx@,
            views(ns@),
            i as int,
            Some(name@),
        ),
{
    let prefix = namespace_prefix(ns.as_slice());
    let leaf = Descriptor::Type(name);
    push_symbol(out, ctx, i, &prefix, leaf, SymbolKind::TypeAlias, Visibility::Public);
}

/// The aliases that the declarators among `lo..hi` of the type definition `owner`
/// introduce.
pub open spec fn typedefs_in(
    c: Ctx,
    ns: Seq<Seq<char>>,
    owner: int,
    lo: int,
    hi: int,
) -> Seq<SymbolView>
    decreases hi - lo,
{
    if lo >= hi {
        Seq::empty()
    } else {
        (if c.tree.in_field(lo, "declarator"@) {
            match declared(c.tree, lo) {
                Some((name, _)) => alias_symbols(c, ns, owner, Some(name)),
                None => Seq::empty(),
            }
        } else {
            Seq::empty()
        }) + typedefs_in(c, ns, owner, c.tree.next(lo, hi), hi)
    }
}

/// Adds the aliases that the declarators under node `i` of the type definition
/// `owner` introduce.
fn push_typedefs(
    ctx: &ExtractCtx<'_>,
    i: usize,
    ns: &Vec<String>,
    owner: usize,
    out: &mut Vec<Symbol>,
)
    requires
        i < ctx.tree@.len(),
    ensures
        views(final(out)@)
            == views(old(out)@)
                + typedefs_in(ctx@, views(ns@), owner as int, i + 1, ctx.tree@.after(i as int)),
{
    let tree = ctx.tree;
    let hi: usize = tree.after(i);
    let mut lo: usize = i + 1;
    while lo < hi
        invariant
            i < lo,
            i < tree@.len(),
            tree == ctx.tree,
            hi == tree@.after(i as int),
            hi <= tree@.len(),
            views(out@) + typedefs_in(ctx@, views(ns@), owner as int, lo as int, hi as int)
                == views(old(out)@)
                + typedefs_in(ctx@, views(ns@), owner as int, i + 1, hi as int),
        decreases hi - lo,
    {
        if tree.in_field(lo, "declarator") {
            if let Some((name, _)) = declarator_name(tree, lo) {
                push_alias(ctx, owner, ns, name, out);
            }
        }
        lo = tree.next(lo, hi);
    }
}

/// The namespaces inside the namespace `i`.
fn nested_namespaces(tree: &SyntaxTree, i: usize, ns: &Vec<String>) -> (nested: Vec<String>)
    requires
        i < tree@.len(),
    ensures
        views(nested@) == inner_namespaces(tree@, views(ns@), i as int),
{
    let mut nested = copy_names(ns);
    if let Some(name) = tree.child(i, "name") {
        proof {
            reveal_strlit("::");
        }
        put_all(&mut nested, split_pieces(tree.text(name), "::"));
    }
    nested
}

/// The type that the type of node `i` defines.
pub open spec fn typed_aggregate(c: Ctx, ns: Seq<Seq<char>>, i: int) -> Seq<SymbolView> {
    match c.tree.child(i, "type"@) {
        Some(ty) => aggregate_at(c, ns, Visibility::Public, ty),
        None => Seq::empty(),
    }
}

/// What the declaration `i` in the namespaces `ns` defines. Some nodes only hold
/// declarations: those that are compiled under a condition, and those with a linkage
/// of their own.
pub open spec fn defs_at(c: Ctx, ns: Seq<Seq<char>>, i: int) -> Seq<SymbolView>
    decreases c.tree.left(i), 2nat,
{
    let t = c.tree;
    let kind = t.kind(i);
    if !t.has(i) {
        Seq::empty()
    } else if is_section(t, i) {
        defs_in(c, ns, i + 1, t.after(i))
    } else if kind == "namespace_definition"@ {
        match t.child(i, "body"@) {
            Some(body) => defs_in(c, inner_namespaces(t, ns, i), body + 1, t.after(body)),
            None => Seq::empty(),
        }
    } else if kind == "function_definition"@ {
        function_symbols(c, ns, i)
    } else if kind == "declaration"@ {
        typed_aggregate(c, ns, i) + declarators_in(c, ns, i, i + 1, t.after(i))
    } else if aggregate_kind(t, i) is Some {
        aggregate_at(c, ns, Visibility::Public, i)
    } else if kind == "type_definition"@ {
        typed_aggregate(c, ns, i) + typedefs_in(c, ns, i, i + 1, t.after(i))
    } else if kind == "alias_declaration"@ {
        alias_symbols(c, ns, i, t.field_text(i, "name"@))
    } else if kind == "template_declaration"@ {
        templated_in(c, ns, i + 1, t.after(i))
    } else if kind == "preproc_def"@ {
        macro_symbols(c, ns, i, SymbolKind::Const)
    } else if kind == "preproc_function_def"@ {
        macro_symbols(c, ns, i, SymbolKind::Function)
    } else {
        Seq::empty()
    }
}

/// What the declarations `lo..hi` in the namespaces `ns` define.
pub open spec fn defs_in(c: Ctx, ns: Seq<Seq<char>>, lo: int, hi: int) -> Seq<SymbolView>
    decreases c.tree.left(lo), 3nat,
{
    if lo >= hi || !c.tree.has(lo) {
        Seq::empty()
    } else {
        defs_at(c, ns, lo) + defs_in(c, ns, c.tree.next(lo, hi), hi)
    }
}

/// What the parts `lo..hi` of a template declaration define.
pub open spec fn templated_in(c: Ctx, ns: Seq<Seq<char>>, lo: int, hi: int) -> Seq<SymbolView>
    decreases c.tree.left(lo), 3nat,
{
    if lo >= hi || !c.tree.has(lo) {
        Seq::empty()
    } else {
        (if is_templated(c.tree, lo) {
            defs_at(c, ns, lo)
        } else {
            Seq::empty()
        }) + templated_in(c, ns, c.tree.next(lo, hi), hi)
    }
}

/// Adds what the declarations under node `i` in the namespaces `ns` define.
fn collect_defs(ctx: &ExtractCtx<'_>, i: usize, ns: &Vec<String>, out: &mut Vec<Symbol>)
    requires
        i < ctx.tree@.len(),
    ensures
        views(final(out)@) == views(old(out)@) + defs_in(
            ctx@,
            views(ns@),
            i + 1,
            ctx.tree@.after(i as int),
        ),
    decreases ctx.tree@.left(i as int), 0nat,
{
    let tree = ctx.tree;
    let hi: usize = tree.after(i);
    let mut lo: usize = i + 1;
    while lo < hi
        invariant
            i < lo,
            i < tree@.len(),
            tree == ctx.tree,
            hi == tree@.after(i as int),
            hi <= tree@.len(),
            views(out@) + defs_in(ctx@, views(ns@), lo as int, hi as int) == views(old(out)@)
                + defs_in(ctx@, views(ns@), i + 1, hi as int),
        decreases hi - lo,
    {
        process_node(ctx, lo, ns, out);
        lo = tree.next(lo, hi);
    }
}

/// Adds what the parts of the template declaration `i` define.
fn collect_templated(ctx: &ExtractCtx<'_>, i: usize, ns: &Vec<String>, out: &mut Vec<Symbol>)
    requires
        i < ctx.tree@.len(),
    ensures
        views(final(out)@) == views(old(out)@) + templated_in(
            ctx@,
            views(ns@),
            i + 1,
            ctx.tree@.after(i as int),
        ),
    decreases ctx.tree@.left(i as int), 0nat,
{
    let tree = ctx.tree;
    let hi: usize = tree.after(i);
    let mut lo: usize = i + 1;
    while lo < hi
        invariant
            i < lo,
            i < tree@.len(),
            tree == ctx.tree,
            hi == tree@.after(i as int),
            hi <= tree@.len(),
            views(out@) + templated_in(ctx@, views(ns@), lo as int, hi as int) == views(old(out)@)
                + templated_in(ctx@, views(ns@), i + 1, hi as int),
        decreases hi - lo,
    {
        if is_template_part(tree, lo) {
            process_node(ctx, lo, ns, out);
        }
        lo = tree.next(lo, hi);
    }
}

/// Adds what the declaration `i` in the namespaces `ns` defines.
fn process_node(ctx: &ExtractCtx<'_>, i: usize, ns: &Vec<String>, out: &mut Vec<Symbol>)
    requires
        i < ctx.tree@.len(),
    ensures
        views(final(out)@) == views(old(out)@) + defs_at(ctx@, views(ns@), i as int),
    decreases ctx.tree@.left(i as int), 1nat,
{
    let tree = ctx.tree;
    if holds_declarations(tree, i) {
        collect_defs(ctx, i, ns, out);
    } else if tree.is(i, "namespace_definition") {
        let nested = nested_namespaces(tree, i, ns);
        if let Some(body) = tree.child(i, "body") {
            collect_defs(ctx, body, &nested, out);
        }
    } else if tree.is(i, "function_definition") {
        push_function(ctx, i, ns, out);
    } else if tree.is(i, "declaration") {
        if let Some(ty) = tree.child(i, "type") {
            emit_aggregate(ctx, ty, ns, Visibility::Public, out);
        }
        push_declarators(ctx, i, ns, i, out);
    } else if is_aggregate(tree, i) {
        emit_aggregate(ctx, i, ns, Visibility::Public, out);
    } else if tree.is(i, "type_definition") {
        if let Some(ty) = tree.child(i, "type") {
            emit_aggregate(ctx, ty, ns, Visibility::Public, out);
        }
        push_typedefs(ctx, i, ns, i, out);
    } else if tree.is(i, "alias_declaration") {
        if let Some(name) = tree.field_text(i, "name") {
            push_alias(ctx, i, ns, name, out);
        }
    } else if tree.is(i, "template_declaration") {
        collect_templated(ctx, i, ns, out);
    } else if tree.is(i, "preproc_def") {
        push_macro(ctx, i, ns, SymbolKind::Const, out);
    } else if tree.is(i, "preproc_function_def") {
        push_macro(ctx, i, ns, SymbolKind::Function, out);
    }
}

// ── Scopes ───────────────────────────────────────────────────────────────────

/// The scopes, with those that node `i` opens under the scope `parent` behind
/// them: a namespace, a class, a struct or a union opens one, in which its
/// members stand; a function opens one, in which the statements of its body
/// stand; so does any other block.
pub open spec fn scopes_with(t: Syntax, i: int, parent: ScopeId, scopes: Seq<Scope>) -> Seq<Scope>
    decreases t.left(i), 0nat,
{
    if !t.has(i) {
        scopes
    } else if t.kind(i) == "namespace_definition"@ || t.kind(i) == "class_specifier"@ || t.kind(i)
        == "struct_specifier"@ || t.kind(i) == "union_specifier"@ {
        let opened = scopes.push(
            Scope { parent: Some(parent), span: span_at(t, i), kind: ScopeKind::Type },
        );
        part_scopes(t, t.child(i, "body"@), i + 1, t.after(i), scopes.len() as usize, opened)
    } else if t.kind(i) == "function_definition"@ || t.kind(i) == "lambda_expression"@ {
        let opened = scopes.push(
            Scope { parent: Some(parent), span: span_at(t, i), kind: ScopeKind::Function },
        );
        part_scopes(t, t.child(i, "body"@), i + 1, t.after(i), scopes.len() as usize, opened)
    } else if t.kind(i) == "compound_statement"@ {
        let opened = scopes.push(
            Scope { parent: Some(parent), span: span_at(t, i), kind: ScopeKind::Block },
        );
        scopes_with_all(t, i + 1, t.after(i), scopes.len() as usize, opened)
    } else {
        scopes_with_all(t, i + 1, t.after(i), parent, scopes)
    }
}

/// The scopes, with those that the nodes `lo..hi` open under the scope `parent`
/// behind them.
pub open spec fn scopes_with_all(
    t: Syntax,
    lo: int,
    hi: int,
    parent: ScopeId,
    scopes: Seq<Scope>,
) -> Seq<Scope>
    decreases t.left(lo), 1nat,
{
    if lo >= hi || !t.has(lo) {
        scopes
    } else {
        scopes_with_all(t, t.next(lo, hi), hi, parent, scopes_with(t, lo, parent, scopes))
    }
}

/// The scopes of a C++ file.
pub open spec fn scopes_of(t: Syntax, source_len: int) -> Seq<Scope> {
    scopes_with_all(t, 1, t.after(0), 0, seq![module_scope(source_len)])
}

/// The scopes of a C++ file. The first is that of the file as a whole.
pub fn collect_scopes(tree: &SyntaxTree, source_len: usize) -> (scopes: Vec<Scope>)
    ensures
        scopes@ == scopes_of(tree@, source_len as int),
        are_file_scopes(scopes@, source_len as int),
        spans_nest(tree@) && span_at(tree@, 0).end <= source_len ==> scopes_nest(scopes@),
{
    let mut scopes: Vec<Scope> = Vec::new();
    push_scope(&mut scopes, None, ByteSpan { start: 0, end: source_len }, ScopeKind::Module);
    assert(scopes@ =~= seq![module_scope(source_len as int)]);
    if tree.len() > 0 {
        scope_all(tree, 0, 0, &mut scopes);
    }
    scopes
}

/// Opens the scopes of the children of node `i` under the scope `parent`.
fn scope_all(tree: &SyntaxTree, i: usize, parent: ScopeId, scopes: &mut Vec<Scope>)
    requires
        i < tree@.len(),
        parent < old(scopes)@.len(),
        is_scope_tree(old(scopes)@),
    ensures
        final(scopes)@ == scopes_with_all(
            tree@,
            i + 1,
            tree@.after(i as int),
            parent,
            old(scopes)@,
        ),
        is_scope_tree(final(scopes)@),
        extends(final(scopes)@, old(scopes)@),
        nests_under(tree@, i as int, parent, old(scopes)@) ==> scopes_nest(final(scopes)@),
    decreases tree@.left(i as int), 0nat,
{
    let hi: usize = tree.after(i);
    let mut lo: usize = i + 1;
    while lo < hi
        invariant
            i < lo,
            i < tree@.len(),
            hi == tree@.after(i as int),
            hi <= tree@.len(),
            parent < old(scopes)@.len(),
            is_scope_tree(scopes@),
            extends(scopes@, old(scopes)@),
            nests_under(tree@, i as int, parent, old(scopes)@) ==> scopes_nest(scopes@),
            scopes_with_all(tree@, lo as int, hi as int, parent, scopes@) == scopes_with_all(
                tree@,
                i + 1,
                hi as int,
                parent,
                old(scopes)@,
            ),
        decreases hi - lo,
    {
        scope_dfs(tree, lo, parent, scopes);
        lo = tree.next(lo, hi);
    }
}

/// Opens the scopes of node `i` under the scope `parent`.
fn scope_dfs(tree: &SyntaxTree, i: usize, parent: ScopeId, scopes: &mut Vec<Scope>)
    requires
        i < tree@.len(),
        parent < old(scopes)@.len(),
        is_scope_tree(old(scopes)@),
    ensures
        final(scopes)@ == scopes_with(tree@, i as int, parent, old(scopes)@),
        is_scope_tree(final(scopes)@),
        extends(final(scopes)@, old(scopes)@),
        nests_under(tree@, i as int, parent, old(scopes)@) ==> scopes_nest(final(scopes)@),
    decreases tree@.left(i as int), 1nat,
{
    if tree.is(i, "namespace_definition") || tree.is(i, "class_specifier") || tree.is(
        i,
        "struct_specifier",
    ) || tree.is(i, "union_specifier") {
        let id: usize = push_scope(scopes, Some(parent), node_span(tree, i), ScopeKind::Type);
        scope_parts(tree, i, tree.child(i, "body"), id, scopes);
    } else if tree.is(i, "function_definition") || tree.is(i, "lambda_expression") {
        let id: usize = push_scope(scopes, Some(parent), node_span(tree, i), ScopeKind::Function);
        scope_parts(tree, i, tree.child(i, "body"), id, scopes);
    } else if tree.is(i, "compound_statement") {
        let id: usize = push_scope(scopes, Some(parent), node_span(tree, i), ScopeKind::Block);
        scope_all(tree, i, id, scopes);
    } else {
        scope_all(tree, i, parent, scopes);
    }
}

/// The scopes, with those that the parts `lo..hi` of a declaration open under the
/// scope `parent` behind them. What its body `body` holds stands in that scope itself.
pub open spec fn part_scopes(
    t: Syntax,
    body: Option<int>,
    lo: int,
    hi: int,
    parent: ScopeId,
    scopes: Seq<Scope>,
) -> Seq<Scope>
    decreases t.left(lo), 1nat,
{
    if lo >= hi || !t.has(lo) {
        scopes
    } else if body == Some(lo) {
        part_scopes(
            t,
            body,
            t.next(lo, hi),
            hi,
            parent,
            scopes_with_all(t, lo + 1, t.after(lo), parent, scopes),
        )
    } else {
        part_scopes(t, body, t.next(lo, hi), hi, parent, scopes_with(t, lo, parent, scopes))
    }
}

/// Opens the scopes of the parts of the declaration `i` under the scope `parent`.
fn scope_parts(
    tree: &SyntaxTree,
    i: usize,
    body: Option<usize>,
    parent: ScopeId,
    scopes: &mut Vec<Scope>,
)
    requires
        i < tree@.len(),
        parent < old(scopes)@.len(),
        is_scope_tree(old(scopes)@),
    ensures
        final(scopes)@ == part_scopes(
            tree@,
            opt_index(body),
            i + 1,
            tree@.after(i as int),
            parent,
            old(scopes)@,
        ),
        is_scope_tree(final(scopes)@),
        extends(final(scopes)@, old(scopes)@),
        nests_under(tree@, i as int, parent, old(scopes)@) ==> scopes_nest(final(scopes)@),
    decreases tree@.left(i as int), 0nat,
{
    let hi: usize = tree.after(i);
    let mut lo: usize = i + 1;
    while lo < hi
        invariant
            i < lo,
            i < tree@.len(),
            hi == tree@.after(i as int),
            hi <= tree@.len(),
            parent < old(scopes)@.len(),
            is_scope_tree(scopes@),
            extends(scopes@, old(scopes)@),
            nests_under(tree@, i as int, parent, old(scopes)@) ==> scopes_nest(scopes@),
            part_scopes(tree@, opt_index(body), lo as int, hi as int, parent, scopes@)
                == part_scopes(
                tree@,
                opt_index(body),
                i + 1,
                hi as int,
                parent,
                old(scopes)@,
            ),
        decreases hi - lo,
    {
        let is_body: bool = match body {
            Some(b) => b == lo,
            None => false,
        };
        if is_body {
            scope_all(tree, lo, parent, scopes);
        } else {
            scope_dfs(tree, lo, parent, scopes);
        }
        lo = tree.next(lo, hi);
    }
}

// ── Bindings ─────────────────────────────────────────────────────────────────

/// Whether a byte lies in a function or a block, and not in a type in it.
pub open spec fn in_code(scopes: Seq<Scope>, byte: int) -> bool {
    match innermost(scopes, byte) {
        Some(id) => 0 <= id < scopes.len() && (scopes[id as int].kind == ScopeKind::Function
            || scopes[id as int].kind == ScopeKind::Block),
        None => false,
    }
}

/// Whether a byte lies in a function or a block, and not in a type in it.
fn is_in_code(byte: usize, scopes: &Vec<Scope>) -> (b: bool)
    ensures
        b == in_code(scopes@, byte as int),
{
    match innermost_scope(byte, scopes) {
        Some(id) => id < scopes.len() && (scopes[id].kind == ScopeKind::Function || scopes[id].kind
            == ScopeKind::Block),
        None => false,
    }
}

/// The list of names that the declarator `i` takes a value apart into.
pub open spec fn unpacked(t: Syntax, i: int) -> Option<int>
    decreases t.left(i),
{
    if !t.has(i) {
        None
    } else if t.kind(i) == "structured_binding_declarator"@ {
        Some(i)
    } else if t.kind(i) == "reference_declarator"@ {
        t.child_of_kind(i, "structured_binding_declarator"@)
    } else {
        match t.child(i, "declarator"@) {
            Some(inner) => unpacked(t, inner),
            None => None,
        }
    }
}

/// The list of names that the declarator `i` takes a value apart into.
fn find_unpacked(tree: &SyntaxTree, i: usize) -> (list: Option<usize>)
    requires
        i < tree@.len(),
    ensures
        opt_index(list) == unpacked(tree@, i as int),
        list matches Some(l) ==> l < tree@.len(),
    decreases tree@.left(i as int),
{
    if tree.is(i, "structured_binding_declarator") {
        Some(i)
    } else if tree.is(i, "reference_declarator") {
        tree.child_of_kind(i, "structured_binding_declarator")
    } else {
        match tree.child(i, "declarator") {
            Some(inner) => find_unpacked(tree, inner),
            None => None,
        }
    }
}

/// The names among `lo..hi` that a value is taken apart into, in a function or a
/// block.
pub open spec fn unpacked_in(t: Syntax, scopes: Seq<Scope>, lo: int, hi: int) -> Seq<BindingView>
    decreases hi - lo,
{
    if lo >= hi {
        Seq::empty()
    } else {
        (if t.kind(lo) == "identifier"@ && in_code(scopes, t.start(lo)) {
            seq![local_binding(scopes, t.text(lo), t.start(lo), BindingKind::Local, None)]
        } else {
            Seq::empty()
        }) + unpacked_in(t, scopes, t.next(lo, hi), hi)
    }
}

/// Adds the names in the list `i` that a value is taken apart into.
fn push_unpacked(tree: &SyntaxTree, i: usize, scopes: &Vec<Scope>, out: &mut Vec<Binding>)
    requires
        i < tree@.len(),
    ensures
        views(final(out)@)
            == views(old(out)@) + unpacked_in(tree@, scopes@, i + 1, tree@.after(i as int)),
{
    let hi: usize = tree.after(i);
    let mut lo: usize = i + 1;
    while lo < hi
        invariant
            i < lo,
            i < tree@.len(),
            hi == tree@.after(i as int),
            hi <= tree@.len(),
            views(out@) + unpacked_in(tree@, scopes@, lo as int, hi as int) == views(old(out)@)
                + unpacked_in(tree@, scopes@, i + 1, hi as int),
        decreases hi - lo,
    {
        let intro: usize = tree.start(lo);
        if tree.is(lo, "identifier") && is_in_code(intro, scopes) {
            push_binding(out, tree.text(lo).to_owned(), intro, BindingKind::Local, scopes);
        }
        lo = tree.next(lo, hi);
    }
}

/// The name that the declarator `i` introduces in a function or a block, or those
/// that it takes a value apart into.
pub open spec fn local_at(
    t: Syntax,
    scopes: Seq<Scope>,
    declared_type: Option<Seq<char>>,
    i: int,
) -> Seq<BindingView> {
    match (unpacked(t, i), declared(t, i)) {
        (Some(list), _) => unpacked_in(t, scopes, list + 1, t.after(list)),
        (None, Some((name, _))) => if in_code(scopes, t.start(i)) {
            seq![local_binding(scopes, name, t.start(i), BindingKind::Local, declared_type)]
        } else {
            Seq::empty()
        },
        _ => Seq::empty(),
    }
}

/// Adds the names that the declarator `i` introduces in a function or a block.
fn push_local(
    tree: &SyntaxTree,
    i: usize,
    scopes: &Vec<Scope>,
    declared_type: Option<String>,
    out: &mut Vec<Binding>,
)
    requires
        i < tree@.len(),
    ensures
        views(final(out)@) == views(old(out)@) + local_at(
            tree@,
            scopes@,
            opt_text(declared_type),
            i as int,
        ),
{
    if let Some(list) = find_unpacked(tree, i) {
        push_unpacked(tree, list, scopes, out);
    } else if let Some((name, _)) = declarator_name(tree, i) {
        let intro: usize = tree.start(i);
        if is_in_code(intro, scopes) {
            push_typed_binding(out, name, intro, BindingKind::Local, scopes, declared_type);
        }
    }
}

/// The name that the parameter `i` introduces, with its type.
pub open spec fn param_at(t: Syntax, scopes: Seq<Scope>, i: int) -> Seq<BindingView> {
    if t.kind(i) == "parameter_declaration"@ || t.kind(i) == "optional_parameter_declaration"@
        || t.kind(i) == "variadic_parameter_declaration"@ {
        match t.child(i, "declarator"@) {
            Some(d) => match declared(t, d) {
                Some((name, _)) => seq![
                    local_binding(
                        scopes,
                        name,
                        t.start(d),
                        BindingKind::Param,
                        typed_name(t, i),
                    ),
                ],
                None => Seq::empty(),
            },
            None => Seq::empty(),
        }
    } else {
        Seq::empty()
    }
}

/// The names that the parameters among `lo..hi` introduce.
pub open spec fn params_in(t: Syntax, scopes: Seq<Scope>, lo: int, hi: int) -> Seq<BindingView>
    decreases hi - lo,
{
    if lo >= hi {
        Seq::empty()
    } else {
        param_at(t, scopes, lo) + params_in(t, scopes, t.next(lo, hi), hi)
    }
}

/// Adds the names that the parameters in the list `i` introduce.
fn collect_params(tree: &SyntaxTree, i: usize, scopes: &Vec<Scope>, out: &mut Vec<Binding>)
    requires
        i < tree@.len(),
    ensures
        views(final(out)@)
            == views(old(out)@) + params_in(tree@, scopes@, i + 1, tree@.after(i as int)),
{
    let hi: usize = tree.after(i);
    let mut lo: usize = i + 1;
    while lo < hi
        invariant
            i < lo,
            i < tree@.len(),
            hi == tree@.after(i as int),
            hi <= tree@.len(),
            views(out@) + params_in(tree@, scopes@, lo as int, hi as int) == views(old(out)@)
                + params_in(tree@, scopes@, i + 1, hi as int),
        decreases hi - lo,
    {
        if tree.is(lo, "parameter_declaration") || tree.is(lo, "optional_parameter_declaration")
            || tree.is(lo, "variadic_parameter_declaration") {
            if let Some(d) = tree.child(lo, "declarator") {
                if let Some((name, _)) = declarator_name(tree, d) {
                    let declared_type = declared_type_name(tree, lo);
                    push_typed_binding(
                        out,
                        name,
                        tree.start(d),
                        BindingKind::Param,
                        scopes,
                        declared_type,
                    );
                }
            }
        }
        lo = tree.next(lo, hi);
    }
}

/// The names that the parameters of the function declarator `f` introduce.
pub open spec fn declarator_params(t: Syntax, scopes: Seq<Scope>, f: int) -> Seq<BindingView> {
    match t.child(f, "parameters"@) {
        Some(params) => params_in(t, scopes, params + 1, t.after(params)),
        None => Seq::empty(),
    }
}

/// The names that node `i` itself introduces: the parameters of a function or a
/// lambda expression, and the variable of a loop over a range.
pub open spec fn introduced(t: Syntax, scopes: Seq<Scope>, i: int) -> Seq<BindingView> {
    match t.child(i, "declarator"@) {
        Some(d) => if t.kind(i) == "function_definition"@ {
            match function_declarator(t, d) {
                Some(f) => declarator_params(t, scopes, f),
                None => Seq::empty(),
            }
        } else if t.kind(i) == "lambda_expression"@ {
            declarator_params(t, scopes, d)
        } else if t.kind(i) == "for_range_loop"@ {
            local_at(t, scopes, None, d)
        } else {
            Seq::empty()
        },
        None => Seq::empty(),
    }
}

/// Adds the names that node `i` itself introduces.
fn push_introduced(tree: &SyntaxTree, i: usize, scopes: &Vec<Scope>, out: &mut Vec<Binding>)
    requires
        i < tree@.len(),
    ensures
        views(final(out)@) == views(old(out)@) + introduced(tree@, scopes@, i as int),
{
    if let Some(d) = tree.child(i, "declarator") {
        if tree.is(i, "function_definition") {
            if let Some(f) = find_function_declarator(tree, d) {
                if let Some(params) = tree.child(f, "parameters") {
                    collect_params(tree, params, scopes, out);
                }
            }
        } else if tree.is(i, "lambda_expression") {
            if let Some(params) = tree.child(d, "parameters") {
                collect_params(tree, params, scopes, out);
            }
        } else if tree.is(i, "for_range_loop") {
            push_local(tree, d, scopes, None, out);
        }
    }
}

/// The names that are introduced in the subtree of node `i`.
pub open spec fn bindings_at(t: Syntax, scopes: Seq<Scope>, i: int) -> Seq<BindingView>
    decreases t.left(i), 0nat,
{
    if !t.has(i) {
        Seq::empty()
    } else if t.kind(i) == "declaration"@ {
        declaration_parts_in(t, scopes, i, i + 1, t.after(i))
    } else {
        introduced(t, scopes, i) + bindings_in(t, scopes, i + 1, t.after(i))
    }
}

/// The names that are introduced in the parts `lo..hi` of the declaration
/// `owner`. Those of its declarators have its type.
pub open spec fn declaration_parts_in(
    t: Syntax,
    scopes: Seq<Scope>,
    owner: int,
    lo: int,
    hi: int,
) -> Seq<BindingView>
    decreases t.left(lo), 1nat,
{
    if lo >= hi || !t.has(lo) {
        Seq::empty()
    } else {
        (if t.in_field(lo, "declarator"@) {
            local_at(t, scopes, typed_name(t, owner), lo)
        } else {
            Seq::empty()
        }) + bindings_at(t, scopes, lo) + declaration_parts_in(
            t,
            scopes,
            owner,
            t.next(lo, hi),
            hi,
        )
    }
}

/// The names that are introduced in the subtrees of the nodes among `lo..hi`.
pub open spec fn bindings_in(t: Syntax, scopes: Seq<Scope>, lo: int, hi: int) -> Seq<BindingView>
    decreases t.left(lo), 1nat,
{
    if lo >= hi || !t.has(lo) {
        Seq::empty()
    } else {
        bindings_at(t, scopes, lo) + bindings_in(t, scopes, t.next(lo, hi), hi)
    }
}

/// Adds the names that are introduced in the subtrees of the children of node `i`.
fn collect_bindings_all(tree: &SyntaxTree, i: usize, scopes: &Vec<Scope>, out: &mut Vec<Binding>)
    requires
        i < tree@.len(),
    ensures
        views(final(out)@) == views(old(out)@) + bindings_in(
            tree@, scopes@,
            i + 1,
            tree@.after(i as int),
        ),
    decreases tree@.left(i as int), 0nat,
{
    let hi: usize = tree.after(i);
    let mut lo: usize = i + 1;
    while lo < hi
        invariant
            i < lo,
            i < tree@.len(),
            hi == tree@.after(i as int),
            hi <= tree@.len(),
            views(out@) + bindings_in(tree@, scopes@, lo as int, hi as int) == views(old(out)@)
                + bindings_in(tree@, scopes@, i + 1, hi as int),
        decreases hi - lo,
    {
        collect_bindings_dfs(tree, lo, scopes, out);
        lo = tree.next(lo, hi);
    }
}

/// Adds the names that are introduced in the parts of the declaration `i`.
fn collect_declaration(tree: &SyntaxTree, i: usize, scopes: &Vec<Scope>, out: &mut Vec<Binding>)
    requires
        i < tree@.len(),
    ensures
        views(final(out)@) == views(old(out)@) + declaration_parts_in(
            tree@,
            scopes@,
            i as int,
            i + 1,
            tree@.after(i as int),
        ),
    decreases tree@.left(i as int), 0nat,
{
    let hi: usize = tree.after(i);
    let mut lo: usize = i + 1;
    while lo < hi
        invariant
            i < lo,
            i < tree@.len(),
            hi == tree@.after(i as int),
            hi <= tree@.len(),
            views(out@) + declaration_parts_in(tree@, scopes@, i as int, lo as int, hi as int)
                == views(old(out)@) + declaration_parts_in(
                tree@,
                scopes@,
                i as int,
                i + 1,
                hi as int,
            ),
        decreases hi - lo,
    {
        if tree.in_field(lo, "declarator") {
            let declared_type = declared_type_name(tree, i);
            push_local(tree, lo, scopes, declared_type, out);
        }
        collect_bindings_dfs(tree, lo, scopes, out);
        lo = tree.next(lo, hi);
    }
}

/// Adds the names that are introduced in the subtree of node `i`.
fn collect_bindings_dfs(
    tree: &SyntaxTree,
    i: usize,
    scopes: &Vec<Scope>,
    out: &mut Vec<Binding>,
)
    requires
        i < tree@.len(),
    ensures
        views(final(out)@) == views(old(out)@) + bindings_at(tree@, scopes@, i as int),
    decreases tree@.left(i as int), 1nat,
{
    if tree.is(i, "declaration") {
        collect_declaration(tree, i, scopes, out);
    } else {
        push_introduced(tree, i, scopes, out);
        collect_bindings_all(tree, i, scopes, out);
    }
}

/// The names that are introduced in the functions and blocks of a C++ file.
fn collect_bindings(tree: &SyntaxTree, scopes: &Vec<Scope>) -> (out: Vec<Binding>)
    ensures
        views(out@) == bindings_at(tree@, scopes@, 0),
{
    let mut out: Vec<Binding> = Vec::new();
    proof {
        views_empty::<Binding>();
    }
    if tree.len() > 0 {
        collect_bindings_dfs(tree, 0, scopes, &mut out);
    }
    out
}

// ── Reads and writes ─────────────────────────────────────────────────────────

/// Whether the identifier `i` stands where it is not read: where it is called,
/// introduced, assigned to, or names a member.
pub open spec fn not_read(t: Syntax, i: int) -> bool {
    match t.parent(i) {
        None => true,
        Some(p) => {
            let kind = t.kind(p);
            if kind == "call_expression"@ {
                t.child(p, "function"@) == Some(i)
            } else if kind == "qualified_identifier"@ {
                t.child(p, "name"@) == Some(i)
            } else if kind == "function_declarator"@ || kind == "pointer_declarator"@ || kind
                == "array_declarator"@ || kind == "init_declarator"@ || kind
                == "function_definition"@ || kind == "declaration"@ || kind
                == "field_declaration"@ || kind == "parameter_declaration"@ || kind
                == "optional_parameter_declaration"@ || kind
                == "variadic_parameter_declaration"@ || kind == "for_range_loop"@ {
                t.in_field(i, "declarator"@)
            } else if kind == "reference_declarator"@ || kind == "attributed_declarator"@ || kind
                == "parenthesized_declarator"@ || kind == "variadic_declarator"@ || kind
                == "structured_binding_declarator"@ {
                true
            } else if kind == "field_expression"@ {
                t.child(p, "field"@) == Some(i)
            } else {
                kind == "assignment_expression"@ && t.child(p, "left"@) == Some(i)
            }
        },
    }
}

/// Whether the identifier `i` stands where it is not read.
fn is_non_read_position(tree: &SyntaxTree, i: usize) -> (b: bool)
    ensures
        b == not_read(tree@, i as int),
{
    match tree.parent(i) {
        None => true,
        Some(p) => {
            if tree.is(p, "call_expression") {
                tree.is_child(p, "function", i)
            } else if tree.is(p, "qualified_identifier") {
                tree.is_child(p, "name", i)
            } else if tree.is(p, "function_declarator") || tree.is(p, "pointer_declarator")
                || tree.is(p, "array_declarator") || tree.is(p, "init_declarator") || tree.is(
                p,
                "function_definition",
            ) || tree.is(p, "declaration") || tree.is(p, "field_declaration") || tree.is(
                p,
                "parameter_declaration",
            ) || tree.is(p, "optional_parameter_declaration") || tree.is(
                p,
                "variadic_parameter_declaration",
            ) || tree.is(p, "for_range_loop") {
                tree.in_field(i, "declarator")
            } else if tree.is(p, "reference_declarator") || tree.is(p, "attributed_declarator")
                || tree.is(p, "parenthesized_declarator") || tree.is(p, "variadic_declarator")
                || tree.is(p, "structured_binding_declarator") {
                true
            } else if tree.is(p, "field_expression") {
                tree.is_child(p, "field", i)
            } else {
                tree.is(p, "assignment_expression") && tree.is_child(p, "left", i)
            }
        },
    }
}

/// The read that the identifier `i` is, where it is long enough and stands where
/// it is read.
pub open spec fn read_of(t: Syntax, file: Seq<char>, i: int) -> Seq<ReferenceView> {
    if (t.kind(i) == "identifier"@) && reportable(t.text(i)) && !not_read(t, i) {
        seq![reference_at(t, file, i, t.text(i), RefRole::Read)]
    } else {
        Seq::empty()
    }
}

/// The reads in the subtree of node `i`.
pub open spec fn reads_at(t: Syntax, file: Seq<char>, i: int) -> Seq<ReferenceView>
    decreases t.left(i), 0nat,
{
    if !t.has(i) {
        Seq::empty()
    } else if t.kind(i) == "identifier"@ {
        read_of(t, file, i)
    } else {
        read_of(t, file, i) + reads_in(t, file, i + 1, t.after(i))
    }
}

/// The reads in the subtrees of the nodes `lo..hi`.
pub open spec fn reads_in(t: Syntax, file: Seq<char>, lo: int, hi: int) -> Seq<ReferenceView>
    decreases t.left(lo), 1nat,
{
    if lo >= hi || !t.has(lo) {
        Seq::empty()
    } else {
        reads_at(t, file, lo) + reads_in(t, file, t.next(lo, hi), hi)
    }
}

/// Adds the reads in the subtree of node `i`.
fn collect_read_references(tree: &SyntaxTree, i: usize, file: &str, out: &mut Vec<Reference>)
    requires
        i < tree@.len(),
    ensures
        views(final(out)@) == views(old(out)@) + reads_at(tree@, file@, i as int),
    decreases tree@.left(i as int),
{
    if tree.is(i, "identifier") {
        let name = tree.text(i);
        if is_reportable(name) && !is_non_read_position(tree, i) {
            push_ref(out, tree, file, i, name, RefRole::Read);
        }
    }
    if tree.is(i, "identifier") {
        return ;
    }
    let hi: usize = tree.after(i);
    let mut lo: usize = i + 1;
    while lo < hi
        invariant
            i < lo,
            i < tree@.len(),
            hi == tree@.after(i as int),
            hi <= tree@.len(),
            views(out@) + reads_in(tree@, file@, lo as int, hi as int) == views(old(out)@)
                + reads_at(tree@, file@, i as int),
        decreases hi - lo,
    {
        collect_read_references(tree, lo, file, out);
        lo = tree.next(lo, hi);
    }
}

/// The reads of node `i` itself, for each `i`.
pub open spec fn reads_of_nodes(t: Syntax, file: Seq<char>) -> spec_fn(int) -> Seq<ReferenceView> {
    |j: int| read_of(t, file, j)
}

/// The reads in a subtree are those of its nodes, in document order: none is missed
/// and none is reported twice.
pub proof fn reads_in_document_order(t: Syntax, file: Seq<char>, i: int)
    requires
        t.nested(),
        t.has(i),
        forall|j: int, k: int|
            t.has(j) && t.kind(j) == "identifier"@ && j < k < #[trigger] t.after(j)
                ==> #[trigger] t.kind(k) != "identifier"@,
    ensures
        reads_at(t, file, i) == in_order(reads_of_nodes(t, file), i, t.after(i)),
    decreases t.left(i), 0nat,
{
    let items = reads_of_nodes(t, file);
    if t.kind(i) == "identifier"@ {
        in_order_none(items, i + 1, t.after(i));
    } else {
        reads_of_siblings(t, file, i + 1, t.after(i));
    }
    assert(in_order(items, i, t.after(i)) == items(i) + in_order(items, i + 1, t.after(i)));
    assert(Seq::<ReferenceView>::empty() + items(i) =~= items(i) + Seq::<ReferenceView>::empty());
}

proof fn reads_of_siblings(t: Syntax, file: Seq<char>, lo: int, hi: int)
    requires
        t.nested(),
        t.closed_range(lo, hi),
        forall|j: int, k: int|
            t.has(j) && t.kind(j) == "identifier"@ && j < k < #[trigger] t.after(j)
                ==> #[trigger] t.kind(k) != "identifier"@,
    ensures
        reads_in(t, file, lo, hi) == in_order(reads_of_nodes(t, file), lo, hi),
    decreases t.left(lo), 1nat,
{
    if lo < hi {
        let items = reads_of_nodes(t, file);
        reads_in_document_order(t, file, lo);
        reads_of_siblings(t, file, t.after(lo), hi);
        in_order_split(items, lo, t.after(lo), hi);
    }
}

/// The write of the assignment `i` to an identifier that is long enough.
pub open spec fn write_of(t: Syntax, file: Seq<char>, i: int) -> Seq<ReferenceView> {
    match t.child(i, "left"@) {
        Some(lhs) => if t.kind(i) == "assignment_expression"@ && t.kind(lhs) == "identifier"@
            && reportable(t.text(lhs)) {
            seq![reference_at(t, file, lhs, t.text(lhs), RefRole::Write)]
        } else {
            Seq::empty()
        },
        None => Seq::empty(),
    }
}

/// The writes in the subtree of node `i`.
pub open spec fn writes_at(t: Syntax, file: Seq<char>, i: int) -> Seq<ReferenceView>
    decreases t.left(i), 0nat,
{
    if !t.has(i) {
        Seq::empty()
    } else {
        write_of(t, file, i) + writes_in(t, file, i + 1, t.after(i))
    }
}

/// The writes in the subtrees of the nodes `lo..hi`.
pub open spec fn writes_in(t: Syntax, file: Seq<char>, lo: int, hi: int) -> Seq<ReferenceView>
    decreases t.left(lo), 1nat,
{
    if lo >= hi || !t.has(lo) {
        Seq::empty()
    } else {
        writes_at(t, file, lo) + writes_in(t, file, t.next(lo, hi), hi)
    }
}

/// Adds the writes in the subtree of node `i`.
fn collect_write_references(tree: &SyntaxTree, i: usize, file: &str, out: &mut Vec<Reference>)
    requires
        i < tree@.len(),
    ensures
        views(final(out)@) == views(old(out)@) + writes_at(tree@, file@, i as int),
    decreases tree@.left(i as int),
{
    if tree.is(i, "assignment_expression") {
        if let Some(lhs) = tree.child(i, "left") {
            let name = tree.text(lhs);
            if tree.is(lhs, "identifier") && is_reportable(name) {
                push_ref(out, tree, file, lhs, name, RefRole::Write);
            }
        }
    }
    let hi: usize = tree.after(i);
    let mut lo: usize = i + 1;
    while lo < hi
        invariant
            i < lo,
            i < tree@.len(),
            hi == tree@.after(i as int),
            hi <= tree@.len(),
            views(out@) + writes_in(tree@, file@, lo as int, hi as int) == views(old(out)@)
                + writes_at(tree@, file@, i as int),
        decreases hi - lo,
    {
        collect_write_references(tree, lo, file, out);
        lo = tree.next(lo, hi);
    }
}

/// The writes of node `i` itself, for each `i`.
pub open spec fn writes_of_nodes(t: Syntax, file: Seq<char>) -> spec_fn(int) -> Seq<ReferenceView> {
    |j: int| write_of(t, file, j)
}

/// The writes in a subtree are those of its nodes, in document order: none is missed
/// and none is reported twice.
pub proof fn writes_in_document_order(t: Syntax, file: Seq<char>, i: int)
    requires
        t.nested(),
        t.has(i),
    ensures
        writes_at(t, file, i) == in_order(writes_of_nodes(t, file), i, t.after(i)),
    decreases t.left(i), 0nat,
{
    let items = writes_of_nodes(t, file);
    writes_of_siblings(t, file, i + 1, t.after(i));
    assert(in_order(items, i, t.after(i)) == items(i) + in_order(items, i + 1, t.after(i)));
    assert(Seq::<ReferenceView>::empty() + items(i) =~= items(i) + Seq::<ReferenceView>::empty());
}

proof fn writes_of_siblings(t: Syntax, file: Seq<char>, lo: int, hi: int)
    requires
        t.nested(),
        t.closed_range(lo, hi),
    ensures
        writes_in(t, file, lo, hi) == in_order(writes_of_nodes(t, file), lo, hi),
    decreases t.left(lo), 1nat,
{
    if lo < hi {
        let items = writes_of_nodes(t, file);
        writes_in_document_order(t, file, lo);
        writes_of_siblings(t, file, t.after(lo), hi);
        in_order_split(items, lo, t.after(lo), hi);
    }
}

// ── Type references ──────────────────────────────────────────────────────────

/// The references to types in the type `i`, which stands in the place `ctx`.
/// Built-in types are not reported.
pub open spec fn leaves_at(t: Syntax, file: Seq<char>, ctx: TypeRefContext, i: int) -> Seq<
    ReferenceView,
>
    decreases t.left(i), 0nat,
{
    let kind = t.kind(i);
    if !t.has(i) {
        Seq::empty()
    } else if kind == "type_identifier"@ {
        seq![type_reference_at(t, file, i, t.text(i), ctx)]
    } else if kind == "qualified_identifier"@ {
        match t.child(i, "name"@) {
            Some(name) => leaves_at(t, file, ctx, name),
            None => if after_last_part(t.text(i), "::"@).len() == 0 {
                Seq::empty()
            } else {
                seq![type_reference_at(t, file, i, after_last_part(t.text(i), "::"@), ctx)]
            },
        }
    } else if kind == "template_type"@ {
        (match t.child(i, "name"@) {
            Some(n) => match leaf_name(t, n) {
                Some(name) => seq![type_reference_at(t, file, n, name, ctx)],
                None => Seq::empty(),
            },
            None => Seq::empty(),
        }) + template_lists_in(t, file, i + 1, t.after(i))
    } else {
        Seq::empty()
    }
}

/// The references to types in the template arguments among `lo..hi`.
pub open spec fn template_args_in(t: Syntax, file: Seq<char>, lo: int, hi: int) -> Seq<
    ReferenceView,
>
    decreases t.left(lo), 1nat,
{
    if lo >= hi || !t.has(lo) {
        Seq::empty()
    } else {
        (if t.kind(lo) == "type_descriptor"@ {
            match t.child(lo, "type"@) {
                Some(ty) => leaves_at(t, file, TypeRefContext::GenericArg, ty),
                None => Seq::empty(),
            }
        } else if t.kind(lo) == "type_identifier"@ || t.kind(lo) == "qualified_identifier"@
            || t.kind(lo) == "template_type"@ {
            leaves_at(t, file, TypeRefContext::GenericArg, lo)
        } else {
            Seq::empty()
        }) + template_args_in(t, file, t.next(lo, hi), hi)
    }
}

/// The references to types in the lists of template arguments among `lo..hi`.
pub open spec fn template_lists_in(t: Syntax, file: Seq<char>, lo: int, hi: int) -> Seq<
    ReferenceView,
>
    decreases t.left(lo), 1nat,
{
    if lo >= hi || !t.has(lo) {
        Seq::empty()
    } else {
        (if t.kind(lo) == "template_argument_list"@ {
            template_args_in(t, file, lo + 1, t.after(lo))
        } else {
            Seq::empty()
        }) + template_lists_in(t, file, t.next(lo, hi), hi)
    }
}

/// Adds the references to types in the list of template arguments `i`.
fn push_template_args(tree: &SyntaxTree, i: usize, file: &str, out: &mut Vec<Reference>)
    requires
        i < tree@.len(),
    ensures
        views(final(out)@) == views(old(out)@) + template_args_in(
            tree@,
            file@,
            i + 1,
            tree@.after(i as int),
        ),
    decreases tree@.left(i as int), 0nat,
{
    let hi: usize = tree.after(i);
    let mut lo: usize = i + 1;
    while lo < hi
        invariant
            i < lo,
            i < tree@.len(),
            hi == tree@.after(i as int),
            hi <= tree@.len(),
            views(out@) + template_args_in(tree@, file@, lo as int, hi as int) == views(old(out)@)
                + template_args_in(tree@, file@, i + 1, hi as int),
        decreases hi - lo,
    {
        if tree.is(lo, "type_descriptor") {
            if let Some(ty) = tree.child(lo, "type") {
                emit_cpp_type_node(tree, ty, file, TypeRefContext::GenericArg, out);
            }
        } else if tree.is(lo, "type_identifier") || tree.is(lo, "qualified_identifier") || tree.is(
            lo,
            "template_type",
        ) {
            emit_cpp_type_node(tree, lo, file, TypeRefContext::GenericArg, out);
        }
        lo = tree.next(lo, hi);
    }
}

/// Adds the references to types in the lists of template arguments of node `i`.
fn push_template_lists(tree: &SyntaxTree, i: usize, file: &str, out: &mut Vec<Reference>)
    requires
        i < tree@.len(),
    ensures
        views(final(out)@) == views(old(out)@) + template_lists_in(
            tree@,
            file@,
            i + 1,
            tree@.after(i as int),
        ),
    decreases tree@.left(i as int), 0nat,
{
    let hi: usize = tree.after(i);
    let mut lo: usize = i + 1;
    while lo < hi
        invariant
            i < lo,
            i < tree@.len(),
            hi == tree@.after(i as int),
            hi <= tree@.len(),
            views(out@) + template_lists_in(tree@, file@, lo as int, hi as int) == views(old(out)@)
                + template_lists_in(tree@, file@, i + 1, hi as int),
        decreases hi - lo,
    {
        if tree.is(lo, "template_argument_list") {
            push_template_args(tree, lo, file, out);
        }
        lo = tree.next(lo, hi);
    }
}

/// Adds the references to types in the type `i`.
fn emit_cpp_type_node(
    tree: &SyntaxTree,
    i: usize,
    file: &str,
    ctx: TypeRefContext,
    out: &mut Vec<Reference>,
)
    requires
        i < tree@.len(),
    ensures
        views(final(out)@) == views(old(out)@) + leaves_at(tree@, file@, ctx, i as int),
    decreases tree@.left(i as int), 1nat,
{
    if tree.is(i, "type_identifier") {
        push_type_ref(out, tree, file, i, tree.text(i), ctx);
    } else if tree.is(i, "qualified_identifier") {
        if let Some(name) = tree.child(i, "name") {
            emit_cpp_type_node(tree, name, file, ctx, out);
        } else {
            let leaf = after_last_part_text(tree.text(i), "::");
            if !is_empty(leaf) {
                push_type_ref(out, tree, file, i, leaf, ctx);
            }
        }
    } else if tree.is(i, "template_type") {
        if let Some(n) = tree.child(i, "name") {
            if let Some(name) = type_leaf_name(tree, n) {
                push_type_ref(out, tree, file, n, name.as_str(), ctx);
            }
        }
        push_template_lists(tree, i, file, out);
    }
}

/// The place of the type of node `i`, where it has one that is reported.
pub open spec fn typed_place(t: Syntax, i: int) -> Option<TypeRefContext> {
    if t.kind(i) == "parameter_declaration"@ || t.kind(i) == "optional_parameter_declaration"@ {
        Some(TypeRefContext::ParameterType)
    } else if t.kind(i) == "function_definition"@ {
        Some(TypeRefContext::ReturnType)
    } else if t.kind(i) == "field_declaration"@ {
        Some(TypeRefContext::Field)
    } else {
        None
    }
}

/// The references to types in the type of node `i` itself.
pub open spec fn own_type_refs(t: Syntax, file: Seq<char>, i: int) -> Seq<ReferenceView> {
    match (typed_place(t, i), t.child(i, "type"@)) {
        (Some(ctx), Some(ty)) => leaves_at(t, file, ctx, ty),
        _ => Seq::empty(),
    }
}

/// The references to types in the subtree of node `i`.
pub open spec fn type_refs_at(t: Syntax, file: Seq<char>, i: int) -> Seq<ReferenceView>
    decreases t.left(i), 0nat,
{
    if !t.has(i) {
        Seq::empty()
    } else {
        own_type_refs(t, file, i) + type_refs_in(t, file, i + 1, t.after(i))
    }
}

/// The references to types in the subtrees of the nodes `lo..hi`.
pub open spec fn type_refs_in(t: Syntax, file: Seq<char>, lo: int, hi: int) -> Seq<ReferenceView>
    decreases t.left(lo), 1nat,
{
    if lo >= hi || !t.has(lo) {
        Seq::empty()
    } else {
        type_refs_at(t, file, lo) + type_refs_in(t, file, t.next(lo, hi), hi)
    }
}

/// Adds the references to types in the subtree of node `i`.
fn collect_type_references(tree: &SyntaxTree, i: usize, file: &str, out: &mut Vec<Reference>)
    requires
        i < tree@.len(),
    ensures
        views(final(out)@) == views(old(out)@) + type_refs_at(tree@, file@, i as int),
    decreases tree@.left(i as int),
{
    let place = if tree.is(i, "parameter_declaration") || tree.is(
        i,
        "optional_parameter_declaration",
    ) {
        Some(TypeRefContext::ParameterType)
    } else if tree.is(i, "function_definition") {
        Some(TypeRefContext::ReturnType)
    } else if tree.is(i, "field_declaration") {
        Some(TypeRefContext::Field)
    } else {
        None
    };
    if let Some(ctx) = place {
        if let Some(ty) = tree.child(i, "type") {
            emit_cpp_type_node(tree, ty, file, ctx, out);
        }
    }
    let hi: usize = tree.after(i);
    let mut lo: usize = i + 1;
    while lo < hi
        invariant
            i < lo,
            i < tree@.len(),
            hi == tree@.after(i as int),
            hi <= tree@.len(),
            views(out@) + type_refs_in(tree@, file@, lo as int, hi as int) == views(old(out)@)
                + type_refs_at(tree@, file@, i as int),
        decreases hi - lo,
    {
        collect_type_references(tree, lo, file, out);
        lo = tree.next(lo, hi);
    }
}

/// The references to types of node `i` itself, for each `i`.
pub open spec fn type_refs_of_nodes(
    t: Syntax,
    file: Seq<char>,
) -> spec_fn(int) -> Seq<ReferenceView> {
    |j: int| own_type_refs(t, file, j)
}

/// The references to types in a subtree are those of its nodes, in document
/// order: none is missed and none is reported twice.
pub proof fn type_refs_in_document_order(t: Syntax, file: Seq<char>, i: int)
    requires
        t.nested(),
        t.has(i),
    ensures
        type_refs_at(t, file, i) == in_order(type_refs_of_nodes(t, file), i, t.after(i)),
    decreases t.left(i), 0nat,
{
    let items = type_refs_of_nodes(t, file);
    type_refs_of_siblings(t, file, i + 1, t.after(i));
    assert(in_order(items, i, t.after(i)) == items(i) + in_order(items, i + 1, t.after(i)));
    assert(Seq::<ReferenceView>::empty() + items(i) =~= items(i) + Seq::<ReferenceView>::empty());
}

proof fn type_refs_of_siblings(t: Syntax, file: Seq<char>, lo: int, hi: int)
    requires
        t.nested(),
        t.closed_range(lo, hi),
    ensures
        type_refs_in(t, file, lo, hi) == in_order(type_refs_of_nodes(t, file), lo, hi),
    decreases t.left(lo), 1nat,
{
    if lo < hi {
        let items = type_refs_of_nodes(t, file);
        type_refs_in_document_order(t, file, lo);
        type_refs_of_siblings(t, file, t.after(lo), hi);
        in_order_split(items, lo, t.after(lo), hi);
    }
}

// ── Inheritance ──────────────────────────────────────────────────────────────

/// The reference to the base `i` of a class.
pub open spec fn base_of(t: Syntax, file: Seq<char>, i: int) -> Seq<ReferenceView> {
    if t.kind(i) == "type_identifier"@ || t.kind(i) == "qualified_identifier"@ || t.kind(i)
        == "template_type"@ {
        seq![
            reference_at(
                t,
                file,
                i,
                simple_name(t.text(i), "::"@),
                RefRole::IsImplementation,
            ),
        ]
    } else {
        Seq::empty()
    }
}

/// The references to the bases among `lo..hi`.
pub open spec fn bases_in(t: Syntax, file: Seq<char>, lo: int, hi: int) -> Seq<ReferenceView>
    decreases hi - lo,
{
    if lo >= hi {
        Seq::empty()
    } else {
        base_of(t, file, lo) + bases_in(t, file, t.next(lo, hi), hi)
    }
}

/// Adds the references to the bases in the clause `i`.
fn push_bases(tree: &SyntaxTree, i: usize, file: &str, out: &mut Vec<Reference>)
    requires
        i < tree@.len(),
    ensures
        views(final(out)@)
            == views(old(out)@) + bases_in(tree@, file@, i + 1, tree@.after(i as int)),
{
    let hi: usize = tree.after(i);
    let mut lo: usize = i + 1;
    while lo < hi
        invariant
            i < lo,
            i < tree@.len(),
            hi == tree@.after(i as int),
            hi <= tree@.len(),
            views(out@) + bases_in(tree@, file@, lo as int, hi as int) == views(old(out)@)
                + bases_in(tree@, file@, i + 1, hi as int),
        decreases hi - lo,
    {
        if tree.is(lo, "type_identifier") || tree.is(lo, "qualified_identifier") || tree.is(
            lo,
            "template_type",
        ) {
            let name = simple_type_name(tree.text(lo), "::");
            push_ref(out, tree, file, lo, name, RefRole::IsImplementation);
        }
        lo = tree.next(lo, hi);
    }
}

/// The references to the bases of the class or struct `i`.
pub open spec fn class_bases(t: Syntax, file: Seq<char>, i: int) -> Seq<ReferenceView> {
    match t.child_of_kind(i, "base_class_clause"@) {
        Some(clause) => if t.kind(i) == "class_specifier"@ || t.kind(i) == "struct_specifier"@ {
            bases_in(t, file, clause + 1, t.after(clause))
        } else {
            Seq::empty()
        },
        None => Seq::empty(),
    }
}

/// The references to bases in the subtree of node `i`.
pub open spec fn inherits_at(t: Syntax, file: Seq<char>, i: int) -> Seq<ReferenceView>
    decreases t.left(i), 0nat,
{
    if !t.has(i) {
        Seq::empty()
    } else {
        class_bases(t, file, i) + inherits_in(t, file, i + 1, t.after(i))
    }
}

/// The references to bases in the subtrees of the nodes `lo..hi`.
pub open spec fn inherits_in(t: Syntax, file: Seq<char>, lo: int, hi: int) -> Seq<ReferenceView>
    decreases t.left(lo), 1nat,
{
    if lo >= hi || !t.has(lo) {
        Seq::empty()
    } else {
        inherits_at(t, file, lo) + inherits_in(t, file, t.next(lo, hi), hi)
    }
}

/// Adds the references to bases in the subtree of node `i`.
fn collect_inheritance(tree: &SyntaxTree, i: usize, file: &str, out: &mut Vec<Reference>)
    requires
        i < tree@.len(),
    ensures
        views(final(out)@) == views(old(out)@) + inherits_at(tree@, file@, i as int),
    decreases tree@.left(i as int),
{
    if tree.is(i, "class_specifier") || tree.is(i, "struct_specifier") {
        if let Some(clause) = tree.child_of_kind(i, "base_class_clause") {
            push_bases(tree, clause, file, out);
        }
    }
    let hi: usize = tree.after(i);
    let mut lo: usize = i + 1;
    while lo < hi
        invariant
            i < lo,
            i < tree@.len(),
            hi == tree@.after(i as int),
            hi <= tree@.len(),
            views(out@) + inherits_in(tree@, file@, lo as int, hi as int) == views(old(out)@)
                + inherits_at(tree@, file@, i as int),
        decreases hi - lo,
    {
        collect_inheritance(tree, lo, file, out);
        lo = tree.next(lo, hi);
    }
}

/// The references to bases of node `i` itself, for each `i`.
pub open spec fn inherits_of_nodes(
    t: Syntax,
    file: Seq<char>,
) -> spec_fn(int) -> Seq<ReferenceView> {
    |j: int| class_bases(t, file, j)
}

/// The references to bases in a subtree are those of its nodes, in document
/// order: none is missed and none is reported twice.
pub proof fn inherits_in_document_order(t: Syntax, file: Seq<char>, i: int)
    requires
        t.nested(),
        t.has(i),
    ensures
        inherits_at(t, file, i) == in_order(inherits_of_nodes(t, file), i, t.after(i)),
    decreases t.left(i), 0nat,
{
    let items = inherits_of_nodes(t, file);
    inherits_of_siblings(t, file, i + 1, t.after(i));
    assert(in_order(items, i, t.after(i)) == items(i) + in_order(items, i + 1, t.after(i)));
    assert(Seq::<ReferenceView>::empty() + items(i) =~= items(i) + Seq::<ReferenceView>::empty());
}

proof fn inherits_of_siblings(t: Syntax, file: Seq<char>, lo: int, hi: int)
    requires
        t.nested(),
        t.closed_range(lo, hi),
    ensures
        inherits_in(t, file, lo, hi) == in_order(inherits_of_nodes(t, file), lo, hi),
    decreases t.left(lo), 1nat,
{
    if lo < hi {
        let items = inherits_of_nodes(t, file);
        inherits_in_document_order(t, file, lo);
        inherits_of_siblings(t, file, t.after(lo), hi);
        in_order_split(items, lo, t.after(lo), hi);
    }
}

// ── Facts ────────────────────────────────────────────────────────────────────

/// The calls: names that are called, plain, as members and qualified.
pub const CALL_QUERY: &'static str = r#"
[
  (call_expression function: (identifier) @callee)
  (call_expression function: (field_expression field: (field_identifier) @callee))
  (call_expression function: (qualified_identifier name: (identifier) @callee))
]
"#;

/// The calls of members of `this`. They are among those of [`CALL_QUERY`], so a
/// query of its own keeps each call from being reported twice.
pub const SELF_CALL_QUERY: &'static str = r#"
(call_expression
  function: (field_expression
    argument: (this)
    field: (field_identifier) @callee))
"#;

/// The calls of members of what a plain name stands for.
pub const RECEIVER_CALL_QUERY: &'static str = r#"
(call_expression
  function: (field_expression
    argument: (identifier) @receiver
    field: (field_identifier) @callee))
"#;

/// The references of a C++ file, without their scopes.
pub open spec fn references_of(
    t: Syntax,
    file: Seq<char>,
    found: Seq<Seq<CaptureView>>,
    on_self: Seq<Seq<CaptureView>>,
    on_receiver: Seq<Seq<CaptureView>>,
) -> Seq<ReferenceView> {
    calls_qualified(t.source, file, found, on_self, on_receiver) + inherits_at(t, file, 0)
        + reads_at(t, file, 0) + writes_at(t, file, 0) + type_refs_at(t, file, 0)
}

/// The facts of a C++ file with the nodes `t`, where `found`, `on_self` and
/// `on_receiver` are the matches of the queries on calls.
pub open spec fn facts_of(
    t: Syntax,
    file: Seq<char>,
    found: Seq<Seq<CaptureView>>,
    on_self: Seq<Seq<CaptureView>>,
    on_receiver: Seq<Seq<CaptureView>>,
) -> FileFactsView {
    let source_len = byte_count(t.source) as int;
    let ns = namespaces_of(file);
    let defs = defs_in(Ctx { tree: t, file, lang: Language::Cpp }, ns, 1, t.after(0));
    let scopes = scopes_of(t, source_len);
    FileFactsView {
        file,
        lang: Language::Cpp.tag(),
        symbols: defs + seq![module_view(Language::Cpp, ns, file, source_len)],
        references: all_scoped(scopes, references_of(t, file, found, on_self, on_receiver)),
        scopes,
        bindings: bindings_at(t, scopes, 0) + definitions_bound(defs),
        ffi_exports: Seq::empty(),
    }
}

/// The facts of a C++ file, from its nodes and the matches of the queries on
/// calls.
pub fn file_facts(
    tree: &SyntaxTree,
    file: &str,
    found: &Vec<Match>,
    on_self: &Vec<Match>,
    on_receiver: &Vec<Match>,
) -> (facts: FileFacts)
    ensures
        facts@ == facts_of(
            tree@,
            file@,
            views(found@),
            views(on_self@),
            views(on_receiver@),
        ),
        coherent(facts@, byte_count(tree@.source) as int),
{
    let source_len: usize = byte_length(tree.source());
    let namespaces = cpp_namespaces(file);
    let ctx = ExtractCtx { tree, file, lang: Language::Cpp };
    let mut defs: Vec<Symbol> = Vec::new();
    proof {
        views_empty::<Symbol>();
        views_empty::<FfiExport>();
    }
    if tree.len() > 0 {
        collect_defs(&ctx, 0, &namespaces, &mut defs);
    }
    let def_bindings = definition_bindings(&defs);
    let ghost own = views(defs@);
    let mut symbols = defs;
    put(&mut symbols, module_symbol(Language::Cpp, namespaces.as_slice(), file, source_len));
    let mut references = collect_call_references(tree.source(), file, found);
    mark_self_receiver_calls(&mut references, on_self);
    mark_receiver_qualifier_calls(&mut references, tree.source(), on_receiver);
    if tree.len() > 0 {
        collect_inheritance(tree, 0, file, &mut references);
        collect_read_references(tree, 0, file, &mut references);
        collect_write_references(tree, 0, file, &mut references);
        collect_type_references(tree, 0, file, &mut references);
    }
    assert(views(references@) =~= references_of(
        tree@,
        file@,
        views(found@),
        views(on_self@),
        views(on_receiver@),
    ));
    let scopes = collect_scopes(tree, source_len);
    let ghost plain = views(references@);
    attach_reference_scopes(&mut references, &scopes);
    let mut bindings = collect_bindings(tree, &scopes);
    let ghost locals = views(bindings@);
    put_all(&mut bindings, def_bindings);
    let facts = FileFacts {
        file: file.to_owned(),
        lang: Language::Cpp.as_str().to_owned(),
        symbols,
        references,
        scopes,
        bindings,
        ffi_exports: Vec::new(),
    };
    proof {
        facts_are_coherent(facts@, own, plain, locals, Seq::empty(), source_len as int);
    }
    facts
}

/// Reads C++ files.
pub struct CppExtractor;

impl Extractor for CppExtractor {
    open spec fn language(&self) -> Language {
        Language::Cpp
    }

    open spec fn facts(&self, tree: tree_sitter::Tree, file: Seq<char>) -> Result<
        FileFactsView,
        ErrorView,
    > {
        match (
            answer_to(tree, CALL_QUERY@),
            answer_to(tree, SELF_CALL_QUERY@),
            answer_to(tree, RECEIVER_CALL_QUERY@),
        ) {
            (Some(found), Some(on_self), Some(on_receiver)) => Ok(
                facts_of(syntax_of(tree), file, found, on_self, on_receiver),
            ),
            _ => Err(ErrorView::Query { path: file }),
        }
    }

    fn lang(&self) -> (lang: Language) {
        Language::Cpp
    }

    fn extract_facts(&self, source: &str, file: &str) -> (result: Result<
        FileFacts,
        CodegraphError,
    >) {
        let parsed = match parse(Language::Cpp, source) {
            Some(parsed) => parsed,
            None => {
                return Err(CodegraphError::Parse { path: file.to_owned() });
            },
        };
        if let Some(found) = parsed.query(CALL_QUERY) {
            if let Some(on_self) = parsed.query(SELF_CALL_QUERY) {
                if let Some(on_receiver) = parsed.query(RECEIVER_CALL_QUERY) {
                    return Ok(file_facts(parsed.syntax(), file, &found, &on_self, &on_receiver));
                }
            }
        }
        Err(CodegraphError::Query { path: file.to_owned() })
    }
}

} // verus!
