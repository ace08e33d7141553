//! The facts of C# files.

use crate::error::{CodegraphError, ErrorView};
use crate::graph::types::{
    Binding, BindingKind, BindingView, ByteSpan, EntryPoint, EntryPointView, FfiExport, FileFacts,
    FileFactsView, RefRole, Reference, ReferenceView, Scope, ScopeId, ScopeKind, Symbol, SymbolKind,
    SymbolView, TypeRefContext, Visibility,
};
use crate::items::{in_order, in_order_none, in_order_split, put, put_all, views, views_empty};
use crate::lang::Language;
use crate::parse::{answer_to, parse, syntax_of, CaptureView, Match};
use crate::symbol::{
    copy_descriptors, method_view, namespace_steps, scip_text, Descriptor, DescriptorView,
};
use crate::syntax::{group_child_bounds, opt_index, Syntax, SyntaxTree};
use crate::text::{
    after_last, after_last_text, before_last, before_last_text, byte_count, byte_length, find_last,
    last_index, opt_text, same, segments, simple_name, simple_type_name, split_segments,
    strip_prefix, strip_suffix, without_prefix, without_suffix,
};
use vstd::prelude::*;

use super::{
    add_entry_point, all_scoped, are_file_scopes, at_file_level, attach_reference_scopes,
    calls_marked, coherent, collect_call_references, define, defined_at, definition_bindings,
    definitions_bound, extends, facts_are_coherent, facts_bind_imports, import_at, import_bindings,
    imports_are_bound, imports_bound, is_file_level, is_reportable, is_scope_tree, local_binding,
    mark_self_receiver_calls, module_scope, module_symbol, module_view, namespace_descriptors,
    nests_under, node_span, push_binding, push_import_ref, push_ref, push_scope, push_type_ref,
    push_typed_binding, reference_at, reportable, scopes_nest, span_at, spans_nest,
    type_reference_at, Ctx, ExtractCtx, Extractor,
};

verus! {

broadcast use group_child_bounds;

// ── Namespaces ───────────────────────────────────────────────────────────────

/// The name of the first namespace that one of the nodes `lo..hi` declares.
pub open spec fn declared_namespace(t: Syntax, lo: int, hi: int) -> Option<Seq<char>>
    decreases hi - lo,
{
    if lo >= hi {
        None
    } else if (t.kind(lo) == "namespace_declaration"@ || t.kind(lo)
        == "file_scoped_namespace_declaration"@) && t.child(lo, "name"@) is Some {
        t.field_text(lo, "name"@)
    } else {
        declared_namespace(t, t.next(lo, hi), hi)
    }
}

/// The namespaces of a C# file: the parts of the name of the namespace that it
/// declares. A file without one has the pieces of its path, without `src/` in
/// front and without `.cs` at the end.
pub open spec fn namespaces_of(t: Syntax, file: Seq<char>) -> Seq<Seq<char>> {
    match declared_namespace(t, 1, t.after(0)) {
        Some(name) => segments(name, '.'),
        None => segments(without_prefix(without_suffix(file, ".cs"@), "src/"@), '/'),
    }
}

/// The namespaces of a C# file.
pub fn csharp_namespaces(tree: &SyntaxTree, file: &str) -> (namespaces: Vec<String>)
    ensures
        views(namespaces@) == namespaces_of(tree@, file@),
{
    if tree.len() > 0 {
        let hi: usize = tree.after(0);
        let mut lo: usize = 1;
        while lo < hi
            invariant
                hi == tree@.after(0),
                hi <= tree@.len(),
                declared_namespace(tree@, lo as int, hi as int) == declared_namespace(
                    tree@,
                    1,
                    hi as int,
                ),
            decreases hi - lo,
        {
            if tree.is(lo, "namespace_declaration") || tree.is(
                lo,
                "file_scoped_namespace_declaration",
            ) {
                if let Some(name) = tree.field_text(lo, "name") {
                    return split_segments(name.as_str(), '.');
                }
            }
            lo = tree.next(lo, hi);
        }
    }
    split_segments(strip_prefix(strip_suffix(file, ".cs"), "src/"), '/')
}

// ── Visibility ───────────────────────────────────────────────────────────────

/// Whether one of the nodes `lo..hi` is the modifier `word`.
pub open spec fn modifier_in(t: Syntax, lo: int, hi: int, word: Seq<char>) -> bool
    decreases hi - lo,
{
    lo < hi && ((t.kind(lo) == "modifier"@ && t.text(lo) == word) || modifier_in(
        t,
        t.next(lo, hi),
        hi,
        word,
    ))
}

/// Whether the declaration `i` has the modifier `word`.
pub open spec fn modified(t: Syntax, i: int, word: Seq<char>) -> bool {
    modifier_in(t, i + 1, t.after(i), word)
}

/// Whether the declaration `i` has the modifier `word`.
fn has_modifier(tree: &SyntaxTree, i: usize, word: &str) -> (b: bool)
    requires
        i < tree@.len(),
    ensures
        b == modified(tree@, i as int, word@),
{
    let hi: usize = tree.after(i);
    let mut lo: usize = i + 1;
    while lo < hi
        invariant
            i < lo,
            hi == tree@.after(i as int),
            hi <= tree@.len(),
            modifier_in(tree@, lo as int, hi as int, word@) == modified(tree@, i as int, word@),
        decreases hi - lo,
    {
        if tree.is(lo, "modifier") && same(tree.text(lo), word) {
            return true;
        }
        lo = tree.next(lo, hi);
    }
    false
}

/// Who can see the declaration `i`: `private` goes before `protected`, that
/// before `public`; a declaration with none of these is internal.
pub open spec fn visibility_at(t: Syntax, i: int) -> Visibility {
    if modified(t, i, "private"@) {
        Visibility::Private
    } else if modified(t, i, "protected"@) {
        Visibility::Protected
    } else if modified(t, i, "public"@) {
        Visibility::Public
    } else {
        Visibility::Internal
    }
}

/// Who can see the declaration `i`.
fn read_visibility(tree: &SyntaxTree, i: usize) -> (visibility: Visibility)
    requires
        i < tree@.len(),
    ensures
        visibility == visibility_at(tree@, i as int),
{
    if has_modifier(tree, i, "private") {
        Visibility::Private
    } else if has_modifier(tree, i, "protected") {
        Visibility::Protected
    } else if has_modifier(tree, i, "public") {
        Visibility::Public
    } else {
        Visibility::Internal
    }
}

/// Who can see the declaration `i` in a type whose members are public without
/// saying so, or in another.
pub open spec fn member_visibility(t: Syntax, i: int, implicit: bool) -> Visibility {
    if implicit {
        Visibility::Public
    } else {
        visibility_at(t, i)
    }
}

/// Who can see the declaration `i` in a type whose members are public without
/// saying so, or in another.
fn read_member_visibility(tree: &SyntaxTree, i: usize, implicit: bool) -> (visibility: Visibility)
    requires
        i < tree@.len(),
    ensures
        visibility == member_visibility(tree@, i as int, implicit),
{
    if implicit {
        Visibility::Public
    } else {
        read_visibility(tree, i)
    }
}

// ── Definitions ──────────────────────────────────────────────────────────────

/// The kind of the type that node `i` declares.
pub open spec fn type_kind(t: Syntax, i: int) -> Option<SymbolKind> {
    if t.kind(i) == "class_declaration"@ || t.kind(i) == "record_declaration"@ {
        Some(SymbolKind::Class)
    } else if t.kind(i) == "struct_declaration"@ {
        Some(SymbolKind::Struct)
    } else if t.kind(i) == "interface_declaration"@ {
        Some(SymbolKind::Interface)
    } else if t.kind(i) == "enum_declaration"@ {
        Some(SymbolKind::Enum)
    } else {
        None
    }
}

/// The kind of the type that node `i` declares.
fn read_type_kind(tree: &SyntaxTree, i: usize) -> (kind: Option<SymbolKind>)
    ensures
        kind == type_kind(tree@, i as int),
{
    if tree.is(i, "class_declaration") || tree.is(i, "record_declaration") {
        Some(SymbolKind::Class)
    } else if tree.is(i, "struct_declaration") {
        Some(SymbolKind::Struct)
    } else if tree.is(i, "interface_declaration") {
        Some(SymbolKind::Interface)
    } else if tree.is(i, "enum_declaration") {
        Some(SymbolKind::Enum)
    } else {
        None
    }
}

/// The method, constructor or property that the member `i` declares. A static
/// method `Main` is where the program starts.
pub open spec fn method_symbols(c: Ctx, prefix: Seq<DescriptorView>, implicit: bool, i: int) -> Seq<
    SymbolView,
> {
    let t = c.tree;
    match t.field_text(i, "name"@) {
        Some(name) => seq![
            SymbolView {
                entry_points: if t.kind(i) == "method_declaration"@ && name == "Main"@ && modified(
                    t,
                    i,
                    "static"@,
                ) {
                    seq![EntryPointView::Main]
                } else {
                    Seq::empty()
                },
                ..defined_at(
                    c,
                    prefix,
                    i,
                    name,
                    SymbolKind::Method,
                    member_visibility(t, i, implicit),
                    method_view(name),
                    "{;"@,
                )
            },
        ],
        None => Seq::empty(),
    }
}

/// Adds the method, constructor or property that the member `i` declares.
fn push_method(
    ctx: &ExtractCtx<'_>,
    i: usize,
    prefix: &Vec<Descriptor>,
    implicit: bool,
    out: &mut Vec<Symbol>,
)
    requires
        i < ctx.tree@.len(),
    ensures
        views(final(out)@) == views(old(out)@) + method_symbols(
            ctx@,
            views(prefix@),
            implicit,
            i as int,
        ),
{
    let tree = ctx.tree;
    if let Some(name) = tree.field_text(i, "name") {
        let visibility = read_member_visibility(tree, i, implicit);
        let is_main: bool = tree.is(i, "method_declaration") && same(name.as_str(), "Main")
            && has_modifier(tree, i, "static");
        let leaf = Descriptor::method(name.as_str().to_owned());
        let mut symbol = define(ctx, prefix, i, name, SymbolKind::Method, visibility, leaf, "{;");
        if is_main {
            add_entry_point(&mut symbol, EntryPoint::Main);
            assert(symbol@.entry_points =~= seq![EntryPointView::Main]);
        }
        put(out, symbol);
    }
}

/// The member of an enum that node `i` declares.
pub open spec fn constant_symbols(c: Ctx, prefix: Seq<DescriptorView>, i: int) -> Seq<SymbolView> {
    match c.tree.field_text(i, "name"@) {
        Some(name) => seq![
            defined_at(
                c,
                prefix,
                i,
                name,
                SymbolKind::Const,
                Visibility::Public,
                DescriptorView::Term(name),
                "{;,"@,
            ),
        ],
        None => Seq::empty(),
    }
}

/// Adds the member of an enum that node `i` declares.
fn push_constant(
    ctx: &ExtractCtx<'_>,
    i: usize,
    prefix: &Vec<Descriptor>,
    out: &mut Vec<Symbol>,
)
    requires
        i < ctx.tree@.len(),
    ensures
        views(final(out)@) == views(old(out)@) + constant_symbols(ctx@, views(prefix@), i as int),
{
    if let Some(name) = ctx.tree.field_text(i, "name") {
        let leaf = Descriptor::Term(name.as_str().to_owned());
        let symbol = define(
            ctx,
            prefix,
            i,
            name,
            SymbolKind::Const,
            Visibility::Public,
            leaf,
            "{;,",
        );
        put(out, symbol);
    }
}

/// The field that the declarator `i` of the field declaration `owner` declares.
pub open spec fn field_symbols(
    c: Ctx,
    prefix: Seq<DescriptorView>,
    visibility: Visibility,
    owner: int,
    i: int,
) -> Seq<SymbolView> {
    let t = c.tree;
    match t.child_of_kind(i, "identifier"@) {
        Some(n) => if t.kind(i) == "variable_declarator"@ {
            seq![
                defined_at(
                    c,
                    prefix,
                    owner,
                    t.text(n),
                    SymbolKind::Static,
                    visibility,
                    DescriptorView::Term(t.text(n)),
                    "{;"@,
                ),
            ]
        } else {
            Seq::empty()
        },
        None => Seq::empty(),
    }
}

/// The fields that the declarators among `lo..hi` of the field declaration `owner`
/// declare.
pub open spec fn declarators_in(
    c: Ctx,
    prefix: Seq<DescriptorView>,
    visibility: Visibility,
    owner: int,
    lo: int,
    hi: int,
) -> Seq<SymbolView>
    decreases hi - lo,
{
    if lo >= hi {
        Seq::empty()
    } else {
        field_symbols(c, prefix, visibility, owner, lo)
            + declarators_in(c, prefix, visibility, owner, c.tree.next(lo, hi), hi)
    }
}

/// Adds the fields that the declarators under node `i` of the field declaration
/// `owner` declare.
fn push_declarators(
    ctx: &ExtractCtx<'_>,
    i: usize,
    prefix: &Vec<Descriptor>,
    visibility: Visibility,
    owner: usize,
    out: &mut Vec<Symbol>,
)
    requires
        i < ctx.tree@.len(),
    ensures
        views(final(out)@)
            == views(old(out)@)
                + declarators_in(
                    ctx@,
                    views(prefix@),
                    visibility,
                    owner as int,
                    i + 1,
                    ctx.tree@.after(i as int),
                ),
{
    let tree = ctx.tree;
    let hi: usize = tree.after(i);
    let mut lo: usize = i + 1;
    while lo < hi
        invariant
            i < lo,
            i < tree@.len(),
            tree == ctx.tree,
            hi == tree@.after(i as int),
            hi <= tree@.len(),
            views(out@)
                + declarators_in(
                    ctx@,
                    views(prefix@),
                    visibility,
                    owner as int,
                    lo as int,
                    hi as int,
                )
                == views(old(out)@)
                + declarators_in(ctx@, views(prefix@), visibility, owner as int, i + 1, hi as int),
        decreases hi - lo,
    {
        if tree.is(lo, "variable_declarator") {
            if let Some(n) = tree.child_of_kind(lo, "identifier") {
                let name = tree.text(n).to_owned();
                let leaf = Descriptor::Term(tree.text(n).to_owned());
                let symbol = define(
                    ctx,
                    prefix,
                    owner,
                    name,
                    SymbolKind::Static,
                    visibility,
                    leaf,
                    "{;",
                );
                put(out, symbol);
            }
        }
        lo = tree.next(lo, hi);
    }
}

/// The fields that the parts `lo..hi` of the field declaration `owner` declare.
pub open spec fn fields_in(
    c: Ctx,
    prefix: Seq<DescriptorView>,
    visibility: Visibility,
    owner: int,
    lo: int,
    hi: int,
) -> Seq<SymbolView>
    decreases hi - lo,
{
    if lo >= hi {
        Seq::empty()
    } else {
        (if c.tree.kind(lo) == "variable_declaration"@ {
            declarators_in(c, prefix, visibility, owner, lo + 1, c.tree.after(lo))
        } else {
            Seq::empty()
        }) + fields_in(c, prefix, visibility, owner, c.tree.next(lo, hi), hi)
    }
}

/// Adds the fields that the parts under node `i` of the field declaration `owner`
/// declare.
fn collect_field_declarators(
    ctx: &ExtractCtx<'_>,
    i: usize,
    prefix: &Vec<Descriptor>,
    visibility: Visibility,
    owner: usize,
    out: &mut Vec<Symbol>,
)
    requires
        i < ctx.tree@.len(),
    ensures
        views(final(out)@)
            == views(old(out)@)
                + fields_in(
                    ctx@,
                    views(prefix@),
                    visibility,
                    owner as int,
                    i + 1,
                    ctx.tree@.after(i as int),
                ),
{
    let tree = ctx.tree;
    let hi: usize = tree.after(i);
    let mut lo: usize = i + 1;
    while lo < hi
        invariant
            i < lo,
            i < tree@.len(),
            tree == ctx.tree,
            hi == tree@.after(i as int),
            hi <= tree@.len(),
            views(out@)
                + fields_in(ctx@, views(prefix@), visibility, owner as int, lo as int, hi as int)
                == views(old(out)@)
                + fields_in(ctx@, views(prefix@), visibility, owner as int, i + 1, hi as int),
        decreases hi - lo,
    {
        if tree.is(lo, "variable_declaration") {
            push_declarators(ctx, lo, prefix, visibility, owner, out);
        }
        lo = tree.next(lo, hi);
    }
}

/// The type that node `i` declares, with its members. Those of an interface are
/// public without saying so.
pub open spec fn type_at(c: Ctx, prefix: Seq<DescriptorView>, implicit: bool, i: int) -> Seq<
    SymbolView,
>
    decreases c.tree.left(i), 0nat,
{
    let t = c.tree;
    if !t.has(i) {
        Seq::empty()
    } else {
        match (type_kind(t, i), t.field_text(i, "name"@)) {
            (Some(kind), Some(name)) => seq![
                defined_at(
                    c,
                    prefix,
                    i,
                    name,
                    kind,
                    member_visibility(t, i, implicit),
                    DescriptorView::Type(name),
                    "{;"@,
                ),
            ] + match t.child(i, "body"@) {
                Some(body) => members_in(
                    c,
                    prefix + seq![DescriptorView::Type(name)],
                    kind == SymbolKind::Interface,
                    body + 1,
                    t.after(body),
                ),
                None => Seq::empty(),
            },
            _ => Seq::empty(),
        }
    }
}

/// What the members `lo..hi` of a type declare.
pub open spec fn members_in(
    c: Ctx,
    prefix: Seq<DescriptorView>,
    implicit: bool,
    lo: int,
    hi: int,
) -> Seq<SymbolView>
    decreases c.tree.left(lo), 1nat,
{
    let t = c.tree;
    if lo >= hi || !t.has(lo) {
        Seq::empty()
    } else {
        (if t.kind(lo) == "method_declaration"@ || t.kind(lo) == "constructor_declaration"@
            || t.kind(lo) == "property_declaration"@ {
            method_symbols(c, prefix, implicit, lo)
        } else if t.kind(lo) == "field_declaration"@ {
            fields_in(
                c,
                prefix,
                member_visibility(t, lo, implicit),
                lo,
                lo + 1,
                t.after(lo),
            )
        } else if t.kind(lo) == "enum_member_declaration"@ {
            constant_symbols(c, prefix, lo)
        } else {
            type_at(c, prefix, implicit, lo)
        }) + members_in(c, prefix, implicit, t.next(lo, hi), hi)
    }
}

/// Adds what the members in the body `i` of a type declare.
fn collect_members(
    ctx: &ExtractCtx<'_>,
    i: usize,
    prefix: &Vec<Descriptor>,
    implicit: bool,
    out: &mut Vec<Symbol>,
)
    requires
        i < ctx.tree@.len(),
    ensures
        views(final(out)@) == views(old(out)@) + members_in(
            ctx@,
            views(prefix@),
            implicit,
            i + 1,
            ctx.tree@.after(i as int),
        ),
    decreases ctx.tree@.left(i as int), 0nat,
{
    let tree = ctx.tree;
    let hi: usize = tree.after(i);
    let mut lo: usize = i + 1;
    while lo < hi
        invariant
            i < lo,
            i < tree@.len(),
            tree == ctx.tree,
            hi == tree@.after(i as int),
            hi <= tree@.len(),
            views(out@) + members_in(ctx@, views(prefix@), implicit, lo as int, hi as int)
                == views(old(out)@) + members_in(
                ctx@,
                views(prefix@),
                implicit,
                i + 1,
                hi as int,
            ),
        decreases hi - lo,
    {
        if tree.is(lo, "method_declaration") || tree.is(lo, "constructor_declaration") || tree.is(
            lo,
            "property_declaration",
        ) {
            push_method(ctx, lo, prefix, implicit, out);
        } else if tree.is(lo, "field_declaration") {
            let visibility = read_member_visibility(tree, lo, implicit);
            collect_field_declarators(ctx, lo, prefix, visibility, lo, out);
        } else if tree.is(lo, "enum_member_declaration") {
            push_constant(ctx, lo, prefix, out);
        } else {
            collect_type(ctx, lo, prefix, implicit, out);
        }
        lo = tree.next(lo, hi);
    }
}

/// Adds the type that node `i` declares, with its members.
fn collect_type(
    ctx: &ExtractCtx<'_>,
    i: usize,
    prefix: &Vec<Descriptor>,
    implicit: bool,
    out: &mut Vec<Symbol>,
)
    requires
        i < ctx.tree@.len(),
    ensures
        views(final(out)@) == views(old(out)@) + type_at(
            ctx@,
            views(prefix@),
            implicit,
            i as int,
        ),
    decreases ctx.tree@.left(i as int), 1nat,
{
    let tree = ctx.tree;
    if let Some(kind) = read_type_kind(tree, i) {
        if let Some(name) = tree.field_text(i, "name") {
            let visibility = read_member_visibility(tree, i, implicit);
            let mut inner = copy_descriptors(prefix);
            put(&mut inner, Descriptor::Type(name.as_str().to_owned()));
            let leaf = Descriptor::Type(name.as_str().to_owned());
            let symbol = define(ctx, prefix, i, name, kind, visibility, leaf, "{;");
            put(out, symbol);
            if let Some(body) = tree.child(i, "body") {
                let is_interface: bool = kind == SymbolKind::Interface;
                collect_members(ctx, body, &inner, is_interface, out);
            }
        }
    }
}

/// What the nodes `lo..hi` of a file or a namespace declare.
pub open spec fn types_in(
    c: Ctx,
    prefix: Seq<DescriptorView>,
    implicit: bool,
    lo: int,
    hi: int,
) -> Seq<SymbolView>
    decreases c.tree.left(lo), 1nat,
{
    let t = c.tree;
    if lo >= hi || !t.has(lo) {
        Seq::empty()
    } else {
        (if t.kind(lo) == "namespace_declaration"@ || t.kind(lo)
            == "file_scoped_namespace_declaration"@ {
            match t.child(lo, "body"@) {
                Some(body) => types_in(c, prefix, false, body + 1, t.after(body)),
                None => Seq::empty(),
            }
        } else {
            type_at(c, prefix, implicit, lo)
        }) + types_in(c, prefix, implicit, t.next(lo, hi), hi)
    }
}

/// Adds what the children of node `i` declare, a file or a namespace.
fn collect_types_in(
    ctx: &ExtractCtx<'_>,
    i: usize,
    prefix: &Vec<Descriptor>,
    implicit: bool,
    out: &mut Vec<Symbol>,
)
    requires
        i < ctx.tree@.len(),
    ensures
        views(final(out)@) == views(old(out)@) + types_in(
            ctx@,
            views(prefix@),
            implicit,
            i + 1,
            ctx.tree@.after(i as int),
        ),
    decreases ctx.tree@.left(i as int),
{
    let tree = ctx.tree;
    let hi: usize = tree.after(i);
    let mut lo: usize = i + 1;
    while lo < hi
        invariant
            i < lo,
            i < tree@.len(),
            tree == ctx.tree,
            hi == tree@.after(i as int),
            hi <= tree@.len(),
            views(out@) + types_in(ctx@, views(prefix@), implicit, lo as int, hi as int) == views(
                old(out)@,
            ) + types_in(ctx@, views(prefix@), implicit, i + 1, hi as int),
        decreases hi - lo,
    {
        if tree.is(lo, "namespace_declaration") || tree.is(
            lo,
            "file_scoped_namespace_declaration",
        ) {
            if let Some(body) = tree.child(lo, "body") {
                collect_types_in(ctx, body, prefix, false, out);
            }
        } else {
            collect_type(ctx, lo, prefix, implicit, out);
        }
        lo = tree.next(lo, hi);
    }
}

/// What a C# file declares.
fn collect_symbols(ctx: &ExtractCtx<'_>, namespaces: &Vec<String>) -> (out: Vec<Symbol>)
    ensures
        views(out@) == types_in(
            ctx@,
            namespace_steps(views(namespaces@)),
            false,
            1,
            ctx.tree@.after(0),
        ),
{
    let prefix = namespace_descriptors(namespaces);
    let mut out: Vec<Symbol> = Vec::new();
    proof {
        views_empty::<Symbol>();
    }
    if ctx.tree.len() > 0 {
        collect_types_in(ctx, 0, &prefix, false, &mut out);
    }
    out
}

// ── Inheritance ──────────────────────────────────────────────────────────────

/// The reference to the base `i` of a type.
pub open spec fn base_of(t: Syntax, file: Seq<char>, i: int) -> Seq<ReferenceView> {
    if t.kind(i) == "identifier"@ {
        seq![reference_at(t, file, i, t.text(i), RefRole::IsImplementation)]
    } else if t.kind(i) == "qualified_name"@ || t.kind(i) == "generic_name"@ {
        seq![
            reference_at(t, file, i, simple_name(t.text(i), "."@), RefRole::IsImplementation),
        ]
    } else {
        Seq::empty()
    }
}

/// The references to the bases among `lo..hi`.
pub open spec fn bases_in(t: Syntax, file: Seq<char>, lo: int, hi: int) -> Seq<ReferenceView>
    decreases hi - lo,
{
    if lo >= hi {
        Seq::empty()
    } else {
        base_of(t, file, lo) + bases_in(t, file, t.next(lo, hi), hi)
    }
}

/// Adds the references to the bases in the list `i`.
fn push_bases(tree: &SyntaxTree, i: usize, file: &str, out: &mut Vec<Reference>)
    requires
        i < tree@.len(),
    ensures
        views(final(out)@)
            == views(old(out)@) + bases_in(tree@, file@, i + 1, tree@.after(i as int)),
{
    let hi: usize = tree.after(i);
    let mut lo: usize = i + 1;
    while lo < hi
        invariant
            i < lo,
            i < tree@.len(),
            hi == tree@.after(i as int),
            hi <= tree@.len(),
            views(out@) + bases_in(tree@, file@, lo as int, hi as int) == views(old(out)@)
                + bases_in(tree@, file@, i + 1, hi as int),
        decreases hi - lo,
    {
        if tree.is(lo, "identifier") {
            push_ref(out, tree, file, lo, tree.text(lo), RefRole::IsImplementation);
        } else if tree.is(lo, "qualified_name") || tree.is(lo, "generic_name") {
            let name = simple_type_name(tree.text(lo), ".");
            push_ref(out, tree, file, lo, name, RefRole::IsImplementation);
        }
        lo = tree.next(lo, hi);
    }
}

/// The references to the bases that node `i` lists.
pub open spec fn listed_bases(t: Syntax, file: Seq<char>, i: int) -> Seq<ReferenceView> {
    if t.kind(i) == "base_list"@ {
        bases_in(t, file, i + 1, t.after(i))
    } else {
        Seq::empty()
    }
}

/// The references to bases in the subtree of node `i`.
pub open spec fn inherits_at(t: Syntax, file: Seq<char>, i: int) -> Seq<ReferenceView>
    decreases t.left(i), 0nat,
{
    if !t.has(i) {
        Seq::empty()
    } else {
        listed_bases(t, file, i) + inherits_in(t, file, i + 1, t.after(i))
    }
}

/// The references to bases in the subtrees of the nodes `lo..hi`.
pub open spec fn inherits_in(t: Syntax, file: Seq<char>, lo: int, hi: int) -> Seq<ReferenceView>
    decreases t.left(lo), 1nat,
{
    if lo >= hi || !t.has(lo) {
        Seq::empty()
    } else {
        inherits_at(t, file, lo) + inherits_in(t, file, t.next(lo, hi), hi)
    }
}

/// Adds the references to bases in the subtree of node `i`.
fn collect_inheritance(tree: &SyntaxTree, i: usize, file: &str, out: &mut Vec<Reference>)
    requires
        i < tree@.len(),
    ensures
        views(final(out)@) == views(old(out)@) + inherits_at(tree@, file@, i as int),
    decreases tree@.left(i as int),
{
    if tree.is(i, "base_list") {
        push_bases(tree, i, file, out);
    }
    let hi: usize = tree.after(i);
    let mut lo: usize = i + 1;
    while lo < hi
        invariant
            i < lo,
            i < tree@.len(),
            hi == tree@.after(i as int),
            hi <= tree@.len(),
            views(out@) + inherits_in(tree@, file@, lo as int, hi as int) == views(old(out)@)
                + inherits_at(tree@, file@, i as int),
        decreases hi - lo,
    {
        collect_inheritance(tree, lo, file, out);
        lo = tree.next(lo, hi);
    }
}

/// The references to bases of node `i` itself, for each `i`.
pub open spec fn inherits_of_nodes(
    t: Syntax,
    file: Seq<char>,
) -> spec_fn(int) -> Seq<ReferenceView> {
    |j: int| listed_bases(t, file, j)
}

/// The references to bases in a subtree are those of its nodes, in document
/// order: none is missed and none is reported twice.
pub proof fn inherits_in_document_order(t: Syntax, file: Seq<char>, i: int)
    requires
        t.nested(),
        t.has(i),
    ensures
        inherits_at(t, file, i) == in_order(inherits_of_nodes(t, file), i, t.after(i)),
    decreases t.left(i), 0nat,
{
    let items = inherits_of_nodes(t, file);
    inherits_of_siblings(t, file, i + 1, t.after(i));
    assert(in_order(items, i, t.after(i)) == items(i) + in_order(items, i + 1, t.after(i)));
    assert(Seq::<ReferenceView>::empty() + items(i) =~= items(i) + Seq::<ReferenceView>::empty());
}

proof fn inherits_of_siblings(t: Syntax, file: Seq<char>, lo: int, hi: int)
    requires
        t.nested(),
        t.closed_range(lo, hi),
    ensures
        inherits_in(t, file, lo, hi) == in_order(inherits_of_nodes(t, file), lo, hi),
    decreases t.left(lo), 1nat,
{
    if lo < hi {
        let items = inherits_of_nodes(t, file);
        inherits_in_document_order(t, file, lo);
        inherits_of_siblings(t, file, t.after(lo), hi);
        in_order_split(items, lo, t.after(lo), hi);
    }
}

// ── Imports ──────────────────────────────────────────────────────────────────

/// The first name among the parts `lo..hi` of a using directive.
pub open spec fn used_name_in(t: Syntax, lo: int, hi: int) -> Option<int>
    decreases hi - lo,
{
    if lo >= hi {
        None
    } else if t.kind(lo) == "qualified_name"@ || t.kind(lo) == "identifier"@ {
        Some(lo)
    } else {
        used_name_in(t, t.next(lo, hi), hi)
    }
}

/// The first name of the using directive `i`.
fn used_name(tree: &SyntaxTree, i: usize) -> (name: Option<usize>)
    requires
        i < tree@.len(),
    ensures
        opt_index(name) == used_name_in(tree@, i + 1, tree@.after(i as int)),
        name matches Some(n) ==> n < tree@.len(),
{
    let hi: usize = tree.after(i);
    let mut lo: usize = i + 1;
    while lo < hi
        invariant
            i < lo,
            hi == tree@.after(i as int),
            hi <= tree@.len(),
            used_name_in(tree@, lo as int, hi as int) == used_name_in(tree@, i + 1, hi as int),
        decreases hi - lo,
    {
        if tree.is(lo, "qualified_name") || tree.is(lo, "identifier") {
            return Some(lo);
        }
        lo = tree.next(lo, hi);
    }
    None
}

/// Whether the using directive `i` names an alias or the members of a type.
pub open spec fn is_special(t: Syntax, i: int) -> bool {
    t.child_of_kind(i, "name_equals"@) is Some || t.child_of_kind(i, "="@) is Some
        || t.child_of_kind(i, "static"@) is Some
}

/// The import of the using directive `i`: the last part of the name, from what
/// stands before it. One for an alias or for the members of a type is none.
pub open spec fn import_of(t: Syntax, file: Seq<char>, module: Seq<char>, i: int) -> Seq<
    ReferenceView,
> {
    match used_name_in(t, i + 1, t.after(i)) {
        Some(n) => if t.kind(i) != "using_directive"@ || is_special(t, i) {
            Seq::empty()
        } else if t.kind(n) == "qualified_name"@ && last_index(
            t.text(n),
            '.',
            t.text(n).len() as int,
        ) >= 0 {
            let at = match t.child(n, "name"@) {
                Some(leaf) => leaf,
                None => n,
            };
            seq![
                import_at(
                    t,
                    file,
                    at,
                    after_last(t.text(n), '.'),
                    module,
                    before_last(t.text(n), '.'),
                ),
            ]
        } else {
            seq![import_at(t, file, n, t.text(n), module, Seq::empty())]
        },
        None => Seq::empty(),
    }
}

/// Adds the import of the using directive `i`.
fn push_import(tree: &SyntaxTree, i: usize, file: &str, module: &str, out: &mut Vec<Reference>)
    requires
        i < tree@.len(),
    ensures
        views(final(out)@) == views(old(out)@) + import_of(tree@, file@, module@, i as int),
{
    if !tree.is(i, "using_directive") || tree.child_of_kind(i, "name_equals").is_some()
        || tree.child_of_kind(i, "=").is_some() || tree.child_of_kind(i, "static").is_some() {
        return ;
    }
    if let Some(n) = used_name(tree, i) {
        let full = tree.text(n);
        if tree.is(n, "qualified_name") && find_last(full, '.').is_some() {
            let at: usize = match tree.child(n, "name") {
                Some(leaf) => leaf,
                None => n,
            };
            let leaf = after_last_text(full, '.');
            let from_path = before_last_text(full, '.');
            push_import_ref(out, tree, file, at, leaf, module, from_path);
        } else {
            proof {
                reveal_strlit("");
                assert(""@ =~= Seq::<char>::empty());
            }
            push_import_ref(out, tree, file, n, full, module, "");
        }
    }
}

/// The imports in the subtree of node `i`.
pub open spec fn imports_at(
    t: Syntax,
    file: Seq<char>,
    module: Seq<char>,
    i: int,
) -> Seq<ReferenceView>
    decreases t.left(i), 0nat,
{
    if !t.has(i) {
        Seq::empty()
    } else if t.kind(i) == "using_directive"@ {
        import_of(t, file, module, i)
    } else {
        import_of(t, file, module, i) + imports_in(t, file, module, i + 1, t.after(i))
    }
}

/// The imports in the subtrees of the nodes `lo..hi`.
pub open spec fn imports_in(
    t: Syntax,
    file: Seq<char>,
    module: Seq<char>,
    lo: int,
    hi: int,
) -> Seq<ReferenceView>
    decreases t.left(lo), 1nat,
{
    if lo >= hi || !t.has(lo) {
        Seq::empty()
    } else {
        imports_at(t, file, module, lo) + imports_in(t, file, module, t.next(lo, hi), hi)
    }
}

/// Adds the imports in the subtree of node `i`.
fn collect_imports(tree: &SyntaxTree, i: usize, file: &str, module: &str, out: &mut Vec<Reference>)
    requires
        i < tree@.len(),
    ensures
        views(final(out)@) == views(old(out)@) + imports_at(tree@, file@, module@, i as int),
    decreases tree@.left(i as int),
{
    push_import(tree, i, file, module, out);
    if tree.is(i, "using_directive") {
        return ;
    }
    let hi: usize = tree.after(i);
    let mut lo: usize = i + 1;
    while lo < hi
        invariant
            i < lo,
            i < tree@.len(),
            hi == tree@.after(i as int),
            hi <= tree@.len(),
            views(out@) + imports_in(tree@, file@, module@, lo as int, hi as int)
                == views(old(out)@)
                + imports_at(tree@, file@, module@, i as int),
        decreases hi - lo,
    {
        collect_imports(tree, lo, file, module, out);
        lo = tree.next(lo, hi);
    }
}

/// The imports of node `i` itself, for each `i`.
pub open spec fn imports_of_nodes(
    t: Syntax,
    file: Seq<char>,
    module: Seq<char>,
) -> spec_fn(int) -> Seq<ReferenceView> {
    |j: int| import_of(t, file, module, j)
}

/// The imports in a subtree are those of its nodes, in document order: none is missed
/// and none is reported twice.
pub proof fn imports_in_document_order(t: Syntax, file: Seq<char>, module: Seq<char>, i: int)
    requires
        t.nested(),
        t.has(i),
        forall|j: int, k: int|
            t.has(j) && t.kind(j) == "using_directive"@ && j < k < #[trigger] t.after(j)
                ==> #[trigger] t.kind(k) != "using_directive"@,
    ensures
        imports_at(t, file, module, i) == in_order(
            imports_of_nodes(t, file, module),
            i,
            t.after(i),
        ),
    decreases t.left(i), 0nat,
{
    let items = imports_of_nodes(t, file, module);
    if t.kind(i) == "using_directive"@ {
        in_order_none(items, i + 1, t.after(i));
    } else {
        imports_of_siblings(t, file, module, i + 1, t.after(i));
    }
    assert(in_order(items, i, t.after(i)) == items(i) + in_order(items, i + 1, t.after(i)));
    assert(Seq::<ReferenceView>::empty() + items(i) =~= items(i) + Seq::<ReferenceView>::empty());
}

proof fn imports_of_siblings(t: Syntax, file: Seq<char>, module: Seq<char>, lo: int, hi: int)
    requires
        t.nested(),
        t.closed_range(lo, hi),
        forall|j: int, k: int|
            t.has(j) && t.kind(j) == "using_directive"@ && j < k < #[trigger] t.after(j)
                ==> #[trigger] t.kind(k) != "using_directive"@,
    ensures
        imports_in(t, file, module, lo, hi) == in_order(imports_of_nodes(t, file, module), lo, hi),
    decreases t.left(lo), 1nat,
{
    if lo < hi {
        let items = imports_of_nodes(t, file, module);
        imports_in_document_order(t, file, module, lo);
        imports_of_siblings(t, file, module, t.after(lo), hi);
        in_order_split(items, lo, t.after(lo), hi);
    }
}

// ── Reads and writes ─────────────────────────────────────────────────────────

/// Whether a node of the kind `kind` introduces what stands under its field `name`:
/// a member, a type, a namespace, a function or a variable.
pub open spec fn declares_name(kind: Seq<char>) -> bool {
    kind == "method_declaration"@
        || kind == "constructor_declaration"@
        || kind == "destructor_declaration"@
        || kind == "property_declaration"@
        || kind == "event_declaration"@
        || kind == "delegate_declaration"@
        || kind == "class_declaration"@
        || kind == "struct_declaration"@
        || kind == "interface_declaration"@
        || kind == "enum_declaration"@
        || kind == "record_declaration"@
        || kind == "namespace_declaration"@
        || kind == "file_scoped_namespace_declaration"@
        || kind == "local_function_statement"@
        || kind == "type_parameter"@
        || kind == "enum_member_declaration"@
        || kind == "variable_declarator"@
        || kind == "parameter"@
        || kind == "catch_declaration"@
}

/// Whether node `p` introduces what stands under its field `name`.
fn is_declaration(tree: &SyntaxTree, p: usize) -> (b: bool)
    ensures
        b == declares_name(tree@.kind(p as int)),
{
    tree.is(p, "method_declaration")
        || tree.is(p, "constructor_declaration")
        || tree.is(p, "destructor_declaration")
        || tree.is(p, "property_declaration")
        || tree.is(p, "event_declaration")
        || tree.is(p, "delegate_declaration")
        || tree.is(p, "class_declaration")
        || tree.is(p, "struct_declaration")
        || tree.is(p, "interface_declaration")
        || tree.is(p, "enum_declaration")
        || tree.is(p, "record_declaration")
        || tree.is(p, "namespace_declaration")
        || tree.is(p, "file_scoped_namespace_declaration")
        || tree.is(p, "local_function_statement")
        || tree.is(p, "type_parameter")
        || tree.is(p, "enum_member_declaration")
        || tree.is(p, "variable_declarator")
        || tree.is(p, "parameter")
        || tree.is(p, "catch_declaration")
}

/// Whether the identifier `i` stands where it is not read: where it is a type,
/// or is called, introduced, imported, assigned to, or names a member.
pub open spec fn not_read(t: Syntax, i: int) -> bool {
    match t.parent(i) {
        None => true,
        Some(p) => {
            let kind = t.kind(p);
            if t.child(p, "type"@) == Some(i) || t.child(p, "returns"@) == Some(i) {
                true
            } else if kind == "invocation_expression"@ {
                t.child(p, "function"@) == Some(i)
            } else if declares_name(kind) || kind == "member_access_expression"@ {
                t.child(p, "name"@) == Some(i)
            } else if kind == "generic_name"@ {
                t.child_of_kind(p, "identifier"@) == Some(i)
            } else if kind == "assignment_expression"@ || kind == "foreach_statement"@ {
                t.child(p, "left"@) == Some(i)
            } else {
                kind == "using_directive"@ || kind == "qualified_name"@ || kind == "base_list"@
                    || kind == "type_argument_list"@
            }
        },
    }
}

/// Whether the identifier `i` stands where it is not read.
fn is_non_read_position(tree: &SyntaxTree, i: usize) -> (b: bool)
    ensures
        b == not_read(tree@, i as int),
{
    match tree.parent(i) {
        None => true,
        Some(p) => {
            if tree.is_child(p, "type", i) || tree.is_child(p, "returns", i) {
                true
            } else if tree.is(p, "invocation_expression") {
                tree.is_child(p, "function", i)
            } else if is_declaration(tree, p) || tree.is(p, "member_access_expression") {
                tree.is_child(p, "name", i)
            } else if tree.is(p, "generic_name") {
                match tree.child_of_kind(p, "identifier") {
                    Some(n) => n == i,
                    None => false,
                }
            } else if tree.is(p, "assignment_expression") || tree.is(p, "foreach_statement") {
                tree.is_child(p, "left", i)
            } else {
                tree.is(p, "using_directive") || tree.is(p, "qualified_name") || tree.is(
                    p,
                    "base_list",
                ) || tree.is(p, "type_argument_list")
            }
        },
    }
}

/// The read that the identifier `i` is, where it is long enough and stands where
/// it is read.
pub open spec fn read_of(t: Syntax, file: Seq<char>, i: int) -> Seq<ReferenceView> {
    if (t.kind(i) == "identifier"@) && reportable(t.text(i)) && !not_read(t, i) {
        seq![reference_at(t, file, i, t.text(i), RefRole::Read)]
    } else {
        Seq::empty()
    }
}

/// The reads in the subtree of node `i`.
pub open spec fn reads_at(t: Syntax, file: Seq<char>, i: int) -> Seq<ReferenceView>
    decreases t.left(i), 0nat,
{
    if !t.has(i) {
        Seq::empty()
    } else if t.kind(i) == "identifier"@ {
        read_of(t, file, i)
    } else {
        read_of(t, file, i) + reads_in(t, file, i + 1, t.after(i))
    }
}

/// The reads in the subtrees of the nodes `lo..hi`.
pub open spec fn reads_in(t: Syntax, file: Seq<char>, lo: int, hi: int) -> Seq<ReferenceView>
    decreases t.left(lo), 1nat,
{
    if lo >= hi || !t.has(lo) {
        Seq::empty()
    } else {
        reads_at(t, file, lo) + reads_in(t, file, t.next(lo, hi), hi)
    }
}

/// Adds the reads in the subtree of node `i`.
fn collect_read_references(tree: &SyntaxTree, i: usize, file: &str, out: &mut Vec<Reference>)
    requires
        i < tree@.len(),
    ensures
        views(final(out)@) == views(old(out)@) + reads_at(tree@, file@, i as int),
    decreases tree@.left(i as int),
{
    if tree.is(i, "identifier") {
        let name = tree.text(i);
        if is_reportable(name) && !is_non_read_position(tree, i) {
            push_ref(out, tree, file, i, name, RefRole::Read);
        }
    }
    if tree.is(i, "identifier") {
        return ;
    }
    let hi: usize = tree.after(i);
    let mut lo: usize = i + 1;
    while lo < hi
        invariant
            i < lo,
            i < tree@.len(),
            hi == tree@.after(i as int),
            hi <= tree@.len(),
            views(out@) + reads_in(tree@, file@, lo as int, hi as int) == views(old(out)@)
                + reads_at(tree@, file@, i as int),
        decreases hi - lo,
    {
        collect_read_references(tree, lo, file, out);
        lo = tree.next(lo, hi);
    }
}

/// The reads of node `i` itself, for each `i`.
pub open spec fn reads_of_nodes(t: Syntax, file: Seq<char>) -> spec_fn(int) -> Seq<ReferenceView> {
    |j: int| read_of(t, file, j)
}

/// The reads in a subtree are those of its nodes, in document order: none is missed
/// and none is reported twice.
pub proof fn reads_in_document_order(t: Syntax, file: Seq<char>, i: int)
    requires
        t.nested(),
        t.has(i),
        forall|j: int, k: int|
            t.has(j) && t.kind(j) == "identifier"@ && j < k < #[trigger] t.after(j)
                ==> #[trigger] t.kind(k) != "identifier"@,
    ensures
        reads_at(t, file, i) == in_order(reads_of_nodes(t, file), i, t.after(i)),
    decreases t.left(i), 0nat,
{
    let items = reads_of_nodes(t, file);
    if t.kind(i) == "identifier"@ {
        in_order_none(items, i + 1, t.after(i));
    } else {
        reads_of_siblings(t, file, i + 1, t.after(i));
    }
    assert(in_order(items, i, t.after(i)) == items(i) + in_order(items, i + 1, t.after(i)));
    assert(Seq::<ReferenceView>::empty() + items(i) =~= items(i) + Seq::<ReferenceView>::empty());
}

proof fn reads_of_siblings(t: Syntax, file: Seq<char>, lo: int, hi: int)
    requires
        t.nested(),
        t.closed_range(lo, hi),
        forall|j: int, k: int|
            t.has(j) && t.kind(j) == "identifier"@ && j < k < #[trigger] t.after(j)
                ==> #[trigger] t.kind(k) != "identifier"@,
    ensures
        reads_in(t, file, lo, hi) == in_order(reads_of_nodes(t, file), lo, hi),
    decreases t.left(lo), 1nat,
{
    if lo < hi {
        let items = reads_of_nodes(t, file);
        reads_in_document_order(t, file, lo);
        reads_of_siblings(t, file, t.after(lo), hi);
        in_order_split(items, lo, t.after(lo), hi);
    }
}

/// The write of the assignment `i` to an identifier that is long enough.
pub open spec fn write_of(t: Syntax, file: Seq<char>, i: int) -> Seq<ReferenceView> {
    match t.child(i, "left"@) {
        Some(lhs) => if t.kind(i) == "assignment_expression"@ && t.kind(lhs) == "identifier"@
            && reportable(t.text(lhs)) {
            seq![reference_at(t, file, lhs, t.text(lhs), RefRole::Write)]
        } else {
            Seq::empty()
        },
        None => Seq::empty(),
    }
}

/// The writes in the subtree of node `i`.
pub open spec fn writes_at(t: Syntax, file: Seq<char>, i: int) -> Seq<ReferenceView>
    decreases t.left(i), 0nat,
{
    if !t.has(i) {
        Seq::empty()
    } else {
        write_of(t, file, i) + writes_in(t, file, i + 1, t.after(i))
    }
}

/// The writes in the subtrees of the nodes `lo..hi`.
pub open spec fn writes_in(t: Syntax, file: Seq<char>, lo: int, hi: int) -> Seq<ReferenceView>
    decreases t.left(lo), 1nat,
{
    if lo >= hi || !t.has(lo) {
        Seq::empty()
    } else {
        writes_at(t, file, lo) + writes_in(t, file, t.next(lo, hi), hi)
    }
}

/// Adds the writes in the subtree of node `i`.
fn collect_write_references(tree: &SyntaxTree, i: usize, file: &str, out: &mut Vec<Reference>)
    requires
        i < tree@.len(),
    ensures
        views(final(out)@) == views(old(out)@) + writes_at(tree@, file@, i as int),
    decreases tree@.left(i as int),
{
    if tree.is(i, "assignment_expression") {
        if let Some(lhs) = tree.child(i, "left") {
            let name = tree.text(lhs);
            if tree.is(lhs, "identifier") && is_reportable(name) {
                push_ref(out, tree, file, lhs, name, RefRole::Write);
            }
        }
    }
    let hi: usize = tree.after(i);
    let mut lo: usize = i + 1;
    while lo < hi
        invariant
            i < lo,
            i < tree@.len(),
            hi == tree@.after(i as int),
            hi <= tree@.len(),
            views(out@) + writes_in(tree@, file@, lo as int, hi as int) == views(old(out)@)
                + writes_at(tree@, file@, i as int),
        decreases hi - lo,
    {
        collect_write_references(tree, lo, file, out);
        lo = tree.next(lo, hi);
    }
}

/// The writes of node `i` itself, for each `i`.
pub open spec fn writes_of_nodes(t: Syntax, file: Seq<char>) -> spec_fn(int) -> Seq<ReferenceView> {
    |j: int| write_of(t, file, j)
}

/// The writes in a subtree are those of its nodes, in document order: none is missed
/// and none is reported twice.
pub proof fn writes_in_document_order(t: Syntax, file: Seq<char>, i: int)
    requires
        t.nested(),
        t.has(i),
    ensures
        writes_at(t, file, i) == in_order(writes_of_nodes(t, file), i, t.after(i)),
    decreases t.left(i), 0nat,
{
    let items = writes_of_nodes(t, file);
    writes_of_siblings(t, file, i + 1, t.after(i));
    assert(in_order(items, i, t.after(i)) == items(i) + in_order(items, i + 1, t.after(i)));
    assert(Seq::<ReferenceView>::empty() + items(i) =~= items(i) + Seq::<ReferenceView>::empty());
}

proof fn writes_of_siblings(t: Syntax, file: Seq<char>, lo: int, hi: int)
    requires
        t.nested(),
        t.closed_range(lo, hi),
    ensures
        writes_in(t, file, lo, hi) == in_order(writes_of_nodes(t, file), lo, hi),
    decreases t.left(lo), 1nat,
{
    if lo < hi {
        let items = writes_of_nodes(t, file);
        writes_in_document_order(t, file, lo);
        writes_of_siblings(t, file, t.after(lo), hi);
        in_order_split(items, lo, t.after(lo), hi);
    }
}

// ── Type references ──────────────────────────────────────────────────────────

/// The references to types in the type `i`, which stands in the place `ctx`.
/// Built-in types are not reported.
pub open spec fn leaves_at(t: Syntax, file: Seq<char>, ctx: TypeRefContext, i: int) -> Seq<
    ReferenceView,
>
    decreases t.left(i), 0nat,
{
    let kind = t.kind(i);
    if !t.has(i) || kind == "predefined_type"@ || kind == "void_keyword"@ {
        Seq::empty()
    } else if kind == "identifier"@ {
        seq![type_reference_at(t, file, i, t.text(i), ctx)]
    } else if kind == "qualified_name"@ || kind == "generic_name"@ {
        seq![type_reference_at(t, file, i, simple_name(t.text(i), "."@), ctx)]
    } else if kind == "nullable_type"@ || kind == "array_type"@ {
        match t.named_child(i) {
            Some(element) => leaves_at(t, file, ctx, element),
            None => Seq::empty(),
        }
    } else {
        leaves_in(t, file, ctx, i + 1, t.after(i))
    }
}

/// The references to types of the named nodes among `lo..hi`.
pub open spec fn leaves_in(
    t: Syntax,
    file: Seq<char>,
    ctx: TypeRefContext,
    lo: int,
    hi: int,
) -> Seq<ReferenceView>
    decreases t.left(lo), 1nat,
{
    if lo >= hi || !t.has(lo) {
        Seq::empty()
    } else {
        (if t.named(lo) {
            leaves_at(t, file, ctx, lo)
        } else {
            Seq::empty()
        }) + leaves_in(t, file, ctx, t.next(lo, hi), hi)
    }
}

/// Adds the references to types of the named children of node `i`.
fn type_leaves(
    tree: &SyntaxTree,
    i: usize,
    file: &str,
    ctx: TypeRefContext,
    out: &mut Vec<Reference>,
)
    requires
        i < tree@.len(),
    ensures
        views(final(out)@) == views(old(out)@) + leaves_in(
            tree@, file@, ctx,
            i + 1,
            tree@.after(i as int),
        ),
    decreases tree@.left(i as int), 0nat,
{
    let hi: usize = tree.after(i);
    let mut lo: usize = i + 1;
    while lo < hi
        invariant
            i < lo,
            i < tree@.len(),
            hi == tree@.after(i as int),
            hi <= tree@.len(),
            views(out@) + leaves_in(tree@, file@, ctx, lo as int, hi as int) == views(old(out)@)
                + leaves_in(tree@, file@, ctx, i + 1, hi as int),
        decreases hi - lo,
    {
        if tree.named(lo) {
            type_leaf(tree, lo, file, ctx, out);
        }
        lo = tree.next(lo, hi);
    }
}

/// Adds the references to types in the type `i`.
fn type_leaf(
    tree: &SyntaxTree,
    i: usize,
    file: &str,
    ctx: TypeRefContext,
    out: &mut Vec<Reference>,
)
    requires
        i < tree@.len(),
    ensures
        views(final(out)@) == views(old(out)@) + leaves_at(tree@, file@, ctx, i as int),
    decreases tree@.left(i as int), 1nat,
{
    if tree.is(i, "predefined_type") || tree.is(i, "void_keyword") {
        return ;
    }
    if tree.is(i, "identifier") {
        push_type_ref(out, tree, file, i, tree.text(i), ctx);
    } else if tree.is(i, "qualified_name") || tree.is(i, "generic_name") {
        let name = simple_type_name(tree.text(i), ".");
        push_type_ref(out, tree, file, i, name, ctx);
    } else if tree.is(i, "nullable_type") || tree.is(i, "array_type") {
        if let Some(element) = tree.named_child(i) {
            type_leaf(tree, element, file, ctx, out);
        }
    } else {
        type_leaves(tree, i, file, ctx, out);
    }
}

/// The references to types in the child of node `i` under the field `field`.
pub open spec fn typed_refs(
    t: Syntax,
    file: Seq<char>,
    ctx: TypeRefContext,
    field: Seq<char>,
    i: int,
) -> Seq<ReferenceView> {
    match t.child(i, field) {
        Some(ty) => leaves_at(t, file, ctx, ty),
        None => Seq::empty(),
    }
}

/// Adds the references to types in the child of node `i` under the field `field`.
fn push_typed_refs(
    tree: &SyntaxTree,
    i: usize,
    file: &str,
    ctx: TypeRefContext,
    field: &str,
    out: &mut Vec<Reference>,
)
    requires
        i < tree@.len(),
    ensures
        views(final(out)@) == views(old(out)@) + typed_refs(tree@, file@, ctx, field@, i as int),
{
    if let Some(ty) = tree.child(i, field) {
        type_leaf(tree, ty, file, ctx, out);
    }
}

/// The references to types in the parts `lo..hi` of a field declaration.
pub open spec fn field_types_in(t: Syntax, file: Seq<char>, lo: int, hi: int) -> Seq<ReferenceView>
    decreases hi - lo,
{
    if lo >= hi {
        Seq::empty()
    } else {
        (if t.kind(lo) == "variable_declaration"@ {
            typed_refs(t, file, TypeRefContext::Field, "type"@, lo)
        } else {
            Seq::empty()
        }) + field_types_in(t, file, t.next(lo, hi), hi)
    }
}

/// Adds the references to types in the field declaration `i`.
fn push_field_types(tree: &SyntaxTree, i: usize, file: &str, out: &mut Vec<Reference>)
    requires
        i < tree@.len(),
    ensures
        views(final(out)@)
            == views(old(out)@) + field_types_in(tree@, file@, i + 1, tree@.after(i as int)),
{
    let hi: usize = tree.after(i);
    let mut lo: usize = i + 1;
    while lo < hi
        invariant
            i < lo,
            i < tree@.len(),
            hi == tree@.after(i as int),
            hi <= tree@.len(),
            views(out@) + field_types_in(tree@, file@, lo as int, hi as int) == views(old(out)@)
                + field_types_in(tree@, file@, i + 1, hi as int),
        decreases hi - lo,
    {
        if tree.is(lo, "variable_declaration") {
            push_typed_refs(tree, lo, file, TypeRefContext::Field, "type", out);
        }
        lo = tree.next(lo, hi);
    }
}

/// The references to types of node `i` itself: in what a method returns, in the
/// type of a parameter, and in that of a field or a property.
pub open spec fn own_type_refs(t: Syntax, file: Seq<char>, i: int) -> Seq<ReferenceView> {
    let kind = t.kind(i);
    if kind == "method_declaration"@ {
        typed_refs(t, file, TypeRefContext::ReturnType, "returns"@, i)
    } else if kind == "parameter"@ {
        typed_refs(t, file, TypeRefContext::ParameterType, "type"@, i)
    } else if kind == "field_declaration"@ {
        field_types_in(t, file, i + 1, t.after(i))
    } else if kind == "property_declaration"@ {
        typed_refs(t, file, TypeRefContext::Field, "type"@, i)
    } else {
        Seq::empty()
    }
}

/// The references to types in the subtree of node `i`.
pub open spec fn type_refs_at(t: Syntax, file: Seq<char>, i: int) -> Seq<ReferenceView>
    decreases t.left(i), 0nat,
{
    if !t.has(i) {
        Seq::empty()
    } else {
        own_type_refs(t, file, i) + type_refs_in(t, file, i + 1, t.after(i))
    }
}

/// The references to types in the subtrees of the nodes `lo..hi`.
pub open spec fn type_refs_in(t: Syntax, file: Seq<char>, lo: int, hi: int) -> Seq<ReferenceView>
    decreases t.left(lo), 1nat,
{
    if lo >= hi || !t.has(lo) {
        Seq::empty()
    } else {
        type_refs_at(t, file, lo) + type_refs_in(t, file, t.next(lo, hi), hi)
    }
}

/// Adds the references to types in the subtree of node `i`.
fn collect_type_references(tree: &SyntaxTree, i: usize, file: &str, out: &mut Vec<Reference>)
    requires
        i < tree@.len(),
    ensures
        views(final(out)@) == views(old(out)@) + type_refs_at(tree@, file@, i as int),
    decreases tree@.left(i as int),
{
    if tree.is(i, "method_declaration") {
        push_typed_refs(tree, i, file, TypeRefContext::ReturnType, "returns", out);
    } else if tree.is(i, "parameter") {
        push_typed_refs(tree, i, file, TypeRefContext::ParameterType, "type", out);
    } else if tree.is(i, "field_declaration") {
        push_field_types(tree, i, file, out);
    } else if tree.is(i, "property_declaration") {
        push_typed_refs(tree, i, file, TypeRefContext::Field, "type", out);
    }
    let hi: usize = tree.after(i);
    let mut lo: usize = i + 1;
    while lo < hi
        invariant
            i < lo,
            i < tree@.len(),
            hi == tree@.after(i as int),
            hi <= tree@.len(),
            views(out@) + type_refs_in(tree@, file@, lo as int, hi as int) == views(old(out)@)
                + type_refs_at(tree@, file@, i as int),
        decreases hi - lo,
    {
        collect_type_references(tree, lo, file, out);
        lo = tree.next(lo, hi);
    }
}

/// The references to types of node `i` itself, for each `i`.
pub open spec fn type_refs_of_nodes(
    t: Syntax,
    file: Seq<char>,
) -> spec_fn(int) -> Seq<ReferenceView> {
    |j: int| own_type_refs(t, file, j)
}

/// The references to types in a subtree are those of its nodes, in document
/// order: none is missed and none is reported twice.
pub proof fn type_refs_in_document_order(t: Syntax, file: Seq<char>, i: int)
    requires
        t.nested(),
        t.has(i),
    ensures
        type_refs_at(t, file, i) == in_order(type_refs_of_nodes(t, file), i, t.after(i)),
    decreases t.left(i), 0nat,
{
    let items = type_refs_of_nodes(t, file);
    type_refs_of_siblings(t, file, i + 1, t.after(i));
    assert(in_order(items, i, t.after(i)) == items(i) + in_order(items, i + 1, t.after(i)));
    assert(Seq::<ReferenceView>::empty() + items(i) =~= items(i) + Seq::<ReferenceView>::empty());
}

proof fn type_refs_of_siblings(t: Syntax, file: Seq<char>, lo: int, hi: int)
    requires
        t.nested(),
        t.closed_range(lo, hi),
    ensures
        type_refs_in(t, file, lo, hi) == in_order(type_refs_of_nodes(t, file), lo, hi),
    decreases t.left(lo), 1nat,
{
    if lo < hi {
        let items = type_refs_of_nodes(t, file);
        type_refs_in_document_order(t, file, lo);
        type_refs_of_siblings(t, file, t.after(lo), hi);
        in_order_split(items, lo, t.after(lo), hi);
    }
}

// ── Scopes ───────────────────────────────────────────────────────────────────

/// The scopes, with those that node `i` opens under the scope `parent` behind
/// them: a namespace, a type and a method each open one, in which what their
/// bodies hold stands; so does any other block.
pub open spec fn scopes_with(t: Syntax, i: int, parent: ScopeId, scopes: Seq<Scope>) -> Seq<Scope>
    decreases t.left(i), 0nat,
{
    if !t.has(i) {
        scopes
    } else if t.kind(i) == "namespace_declaration"@
        || t.kind(i) == "file_scoped_namespace_declaration"@ {
        let opened = scopes.push(
            Scope { parent: Some(parent), span: span_at(t, i), kind: ScopeKind::Module },
        );
        match t.child(i, "body"@) {
            Some(body) => scopes_with_all(
                t,
                body + 1,
                t.after(body),
                scopes.len() as usize,
                opened,
            ),
            None => opened,
        }
    } else if t.kind(i) == "class_declaration"@ || t.kind(i) == "struct_declaration"@
        || t.kind(i) == "interface_declaration"@ || t.kind(i) == "enum_declaration"@
        || t.kind(i) == "record_declaration"@ {
        let opened = scopes.push(
            Scope { parent: Some(parent), span: span_at(t, i), kind: ScopeKind::Type },
        );
        match t.child(i, "body"@) {
            Some(body) => scopes_with_all(
                t,
                body + 1,
                t.after(body),
                scopes.len() as usize,
                opened,
            ),
            None => opened,
        }
    } else if t.kind(i) == "method_declaration"@ || t.kind(i) == "constructor_declaration"@ {
        let opened = scopes.push(
            Scope { parent: Some(parent), span: span_at(t, i), kind: ScopeKind::Function },
        );
        match t.child(i, "body"@) {
            Some(body) => scopes_with_all(
                t,
                body + 1,
                t.after(body),
                scopes.len() as usize,
                opened,
            ),
            None => opened,
        }
    } else if t.kind(i) == "block"@ {
        let opened = scopes.push(
            Scope { parent: Some(parent), span: span_at(t, i), kind: ScopeKind::Block },
        );
        scopes_with_all(t, i + 1, t.after(i), scopes.len() as usize, opened)
    } else {
        scopes_with_all(t, i + 1, t.after(i), parent, scopes)
    }
}

/// The scopes, with those that the nodes `lo..hi` open under the scope `parent`
/// behind them.
pub open spec fn scopes_with_all(
    t: Syntax,
    lo: int,
    hi: int,
    parent: ScopeId,
    scopes: Seq<Scope>,
) -> Seq<Scope>
    decreases t.left(lo), 1nat,
{
    if lo >= hi || !t.has(lo) {
        scopes
    } else {
        scopes_with_all(t, t.next(lo, hi), hi, parent, scopes_with(t, lo, parent, scopes))
    }
}

/// The scopes of a C# file.
pub open spec fn scopes_of(t: Syntax, source_len: int) -> Seq<Scope> {
    scopes_with_all(t, 1, t.after(0), 0, seq![module_scope(source_len)])
}

/// The scopes of a C# file. The first is that of the file as a whole.
pub fn collect_scopes(tree: &SyntaxTree, source_len: usize) -> (scopes: Vec<Scope>)
    ensures
        scopes@ == scopes_of(tree@, source_len as int),
        are_file_scopes(scopes@, source_len as int),
        spans_nest(tree@) && span_at(tree@, 0).end <= source_len ==> scopes_nest(scopes@),
{
    let mut scopes: Vec<Scope> = Vec::new();
    push_scope(&mut scopes, None, ByteSpan { start: 0, end: source_len }, ScopeKind::Module);
    assert(scopes@ =~= seq![module_scope(source_len as int)]);
    if tree.len() > 0 {
        scope_all(tree, 0, 0, &mut scopes);
    }
    scopes
}

/// Opens the scopes of the children of node `i` under the scope `parent`.
fn scope_all(tree: &SyntaxTree, i: usize, parent: ScopeId, scopes: &mut Vec<Scope>)
    requires
        i < tree@.len(),
        parent < old(scopes)@.len(),
        is_scope_tree(old(scopes)@),
    ensures
        final(scopes)@ == scopes_with_all(
            tree@,
            i + 1,
            tree@.after(i as int),
            parent,
            old(scopes)@,
        ),
        is_scope_tree(final(scopes)@),
        extends(final(scopes)@, old(scopes)@),
        nests_under(tree@, i as int, parent, old(scopes)@) ==> scopes_nest(final(scopes)@),
    decreases tree@.left(i as int), 0nat,
{
    let hi: usize = tree.after(i);
    let mut lo: usize = i + 1;
    while lo < hi
        invariant
            i < lo,
            i < tree@.len(),
            hi == tree@.after(i as int),
            hi <= tree@.len(),
            parent < old(scopes)@.len(),
            is_scope_tree(scopes@),
            extends(scopes@, old(scopes)@),
            nests_under(tree@, i as int, parent, old(scopes)@) ==> scopes_nest(scopes@),
            scopes_with_all(tree@, lo as int, hi as int, parent, scopes@) == scopes_with_all(
                tree@,
                i + 1,
                hi as int,
                parent,
                old(scopes)@,
            ),
        decreases hi - lo,
    {
        scope_dfs(tree, lo, parent, scopes);
        lo = tree.next(lo, hi);
    }
}

/// Opens the scopes of node `i` under the scope `parent`.
fn scope_dfs(tree: &SyntaxTree, i: usize, parent: ScopeId, scopes: &mut Vec<Scope>)
    requires
        i < tree@.len(),
        parent < old(scopes)@.len(),
        is_scope_tree(old(scopes)@),
    ensures
        final(scopes)@ == scopes_with(tree@, i as int, parent, old(scopes)@),
        is_scope_tree(final(scopes)@),
        extends(final(scopes)@, old(scopes)@),
        nests_under(tree@, i as int, parent, old(scopes)@) ==> scopes_nest(final(scopes)@),
    decreases tree@.left(i as int), 1nat,
{
    if tree.is(i, "namespace_declaration") || tree.is(i, "file_scoped_namespace_declaration") {
        let id: usize = push_scope(scopes, Some(parent), node_span(tree, i), ScopeKind::Module);
        if let Some(body) = tree.child(i, "body") {
            scope_all(tree, body, id, scopes);
        }
    } else if tree.is(i, "class_declaration") || tree.is(i, "struct_declaration")
        || tree.is(i, "interface_declaration") || tree.is(i, "enum_declaration")
        || tree.is(i, "record_declaration") {
        let id: usize = push_scope(scopes, Some(parent), node_span(tree, i), ScopeKind::Type);
        if let Some(body) = tree.child(i, "body") {
            scope_all(tree, body, id, scopes);
        }
    } else if tree.is(i, "method_declaration") || tree.is(i, "constructor_declaration") {
        let id: usize = push_scope(scopes, Some(parent), node_span(tree, i), ScopeKind::Function);
        if let Some(body) = tree.child(i, "body") {
            scope_all(tree, body, id, scopes);
        }
    } else if tree.is(i, "block") {
        let id: usize = push_scope(scopes, Some(parent), node_span(tree, i), ScopeKind::Block);
        scope_all(tree, i, id, scopes);
    } else {
        scope_all(tree, i, parent, scopes);
    }
}

// ── Bindings ─────────────────────────────────────────────────────────────────

/// The name of the type of node `i`, as it is written, without its arguments and
/// without what it is qualified with.
pub open spec fn written_type(t: Syntax, i: int) -> Option<Seq<char>> {
    match t.child(i, "type"@) {
        Some(ty) => Some(simple_name(t.text(ty), "."@)),
        None => None,
    }
}

/// The name of the type of node `i`, as it is written.
fn read_written_type(tree: &SyntaxTree, i: usize) -> (name: Option<String>)
    requires
        i < tree@.len(),
    ensures
        opt_text(name) == written_type(tree@, i as int),
{
    match tree.child(i, "type") {
        Some(ty) => Some(simple_type_name(tree.text(ty), ".").to_owned()),
        None => None,
    }
}

/// The first named node of `lo..hi` that is not `name`.
pub open spec fn other_named_in(t: Syntax, lo: int, hi: int, name: Option<int>) -> Option<int>
    decreases hi - lo,
{
    if lo >= hi {
        None
    } else if t.named(lo) && name != Some(lo) {
        Some(lo)
    } else {
        other_named_in(t, t.next(lo, hi), hi, name)
    }
}

/// The value that the declarator `i` gives.
pub open spec fn value_of(t: Syntax, i: int) -> Option<int> {
    other_named_in(t, i + 1, t.after(i), t.child(i, "name"@))
}

/// The value that the declarator `i` gives.
fn find_value(tree: &SyntaxTree, i: usize) -> (value: Option<usize>)
    requires
        i < tree@.len(),
    ensures
        opt_index(value) == value_of(tree@, i as int),
        value matches Some(v) ==> v < tree@.len(),
{
    let name = tree.child(i, "name");
    let hi: usize = tree.after(i);
    let mut lo: usize = i + 1;
    while lo < hi
        invariant
            i < lo,
            hi == tree@.after(i as int),
            hi <= tree@.len(),
            opt_index(name) == tree@.child(i as int, "name"@),
            other_named_in(tree@, lo as int, hi as int, opt_index(name)) == value_of(
                tree@,
                i as int,
            ),
        decreases hi - lo,
    {
        let is_name: bool = match name {
            Some(n) => n == lo,
            None => false,
        };
        if tree.named(lo) && !is_name {
            return Some(lo);
        }
        lo = tree.next(lo, hi);
    }
    None
}

/// The type of the name that the declarator `d` of the variable declaration `v`
/// introduces: the one that is written, or that of the object that is made for
/// it. Nothing is guessed.
pub open spec fn declarator_type(t: Syntax, v: int, d: int) -> Option<Seq<char>> {
    match t.child(v, "type"@) {
        Some(ty) => if t.kind(ty) != "implicit_type"@ {
            Some(simple_name(t.text(ty), "."@))
        } else {
            match value_of(t, d) {
                Some(value) => if t.kind(value) == "object_creation_expression"@ {
                    written_type(t, value)
                } else {
                    None
                },
                None => None,
            }
        },
        None => None,
    }
}

/// The type of the name that the declarator `d` of the variable declaration `v`
/// introduces.
fn local_declarator_type_name(tree: &SyntaxTree, v: usize, d: usize) -> (name: Option<String>)
    requires
        v < tree@.len(),
        d < tree@.len(),
    ensures
        opt_text(name) == declarator_type(tree@, v as int, d as int),
{
    let ty: usize = match tree.child(v, "type") {
        Some(ty) => ty,
        None => {
            return None;
        },
    };
    if !tree.is(ty, "implicit_type") {
        return Some(simple_type_name(tree.text(ty), ".").to_owned());
    }
    match find_value(tree, d) {
        Some(value) => if tree.is(value, "object_creation_expression") {
            read_written_type(tree, value)
        } else {
            None
        },
        None => None,
    }
}

/// The name that the declarator `i` of the variable declaration `owner`
/// introduces, where it is long enough and not one of the file as a whole.
pub open spec fn local_at(t: Syntax, scopes: Seq<Scope>, owner: int, i: int) -> Seq<BindingView> {
    match t.child_of_kind(i, "identifier"@) {
        Some(n) => if t.kind(i) == "variable_declarator"@ && reportable(t.text(n))
            && !at_file_level(scopes, t.start(n)) {
            seq![
                local_binding(
                    scopes,
                    t.text(n),
                    t.start(n),
                    BindingKind::Local,
                    declarator_type(t, owner, i),
                ),
            ]
        } else {
            Seq::empty()
        },
        None => Seq::empty(),
    }
}

/// The names that the declarators among `lo..hi` of the variable declaration
/// `owner` introduce.
pub open spec fn locals_in(
    t: Syntax,
    scopes: Seq<Scope>,
    owner: int,
    lo: int,
    hi: int,
) -> Seq<BindingView>
    decreases hi - lo,
{
    if lo >= hi {
        Seq::empty()
    } else {
        local_at(t, scopes, owner, lo) + locals_in(t, scopes, owner, t.next(lo, hi), hi)
    }
}

/// Adds the names that the declarators under node `i` of the variable declaration
/// `owner` introduce.
fn push_locals(
    tree: &SyntaxTree,
    i: usize,
    scopes: &Vec<Scope>,
    owner: usize,
    out: &mut Vec<Binding>,
)
    requires
        i < tree@.len(),
        owner < tree@.len(),
    ensures
        views(final(out)@)
            == views(old(out)@)
                + locals_in(tree@, scopes@, owner as int, i + 1, tree@.after(i as int)),
{
    let hi: usize = tree.after(i);
    let mut lo: usize = i + 1;
    while lo < hi
        invariant
            i < lo,
            i < tree@.len(),
            owner < tree@.len(),
            hi == tree@.after(i as int),
            hi <= tree@.len(),
            views(out@) + locals_in(tree@, scopes@, owner as int, lo as int, hi as int)
                == views(old(out)@)
                + locals_in(tree@, scopes@, owner as int, i + 1, hi as int),
        decreases hi - lo,
    {
        if tree.is(lo, "variable_declarator") {
            if let Some(n) = tree.child_of_kind(lo, "identifier") {
                let name = tree.text(n);
                let intro: usize = tree.start(n);
                if is_reportable(name) && !is_file_level(intro, scopes) {
                    let declared_type = local_declarator_type_name(tree, owner, lo);
                    push_typed_binding(
                        out,
                        name.to_owned(),
                        intro,
                        BindingKind::Local,
                        scopes,
                        declared_type,
                    );
                }
            }
        }
        lo = tree.next(lo, hi);
    }
}

/// The names that the variable declarations among `lo..hi` introduce.
pub open spec fn declared_in(t: Syntax, scopes: Seq<Scope>, lo: int, hi: int) -> Seq<BindingView>
    decreases hi - lo,
{
    if lo >= hi {
        Seq::empty()
    } else {
        (if t.kind(lo) == "variable_declaration"@ {
            locals_in(t, scopes, lo, lo + 1, t.after(lo))
        } else {
            Seq::empty()
        }) + declared_in(t, scopes, t.next(lo, hi), hi)
    }
}

/// Adds the names that the variable declarations in the statement `i` introduce.
fn push_declared(tree: &SyntaxTree, i: usize, scopes: &Vec<Scope>, out: &mut Vec<Binding>)
    requires
        i < tree@.len(),
    ensures
        views(final(out)@)
            == views(old(out)@) + declared_in(tree@, scopes@, i + 1, tree@.after(i as int)),
{
    let hi: usize = tree.after(i);
    let mut lo: usize = i + 1;
    while lo < hi
        invariant
            i < lo,
            i < tree@.len(),
            hi == tree@.after(i as int),
            hi <= tree@.len(),
            views(out@) + declared_in(tree@, scopes@, lo as int, hi as int) == views(old(out)@)
                + declared_in(tree@, scopes@, i + 1, hi as int),
        decreases hi - lo,
    {
        if tree.is(lo, "variable_declaration") {
            push_locals(tree, lo, scopes, lo, out);
        }
        lo = tree.next(lo, hi);
    }
}

/// The name that the parameter `i` introduces, with its type.
pub open spec fn param_at(t: Syntax, scopes: Seq<Scope>, i: int) -> Seq<BindingView> {
    match t.child(i, "name"@) {
        Some(n) => if t.named(i) && t.kind(i) == "parameter"@ {
            seq![
                local_binding(
                    scopes,
                    t.text(n),
                    t.start(n),
                    BindingKind::Param,
                    written_type(t, i),
                ),
            ]
        } else {
            Seq::empty()
        },
        None => Seq::empty(),
    }
}

/// The names that the parameters among `lo..hi` introduce.
pub open spec fn params_in(t: Syntax, scopes: Seq<Scope>, lo: int, hi: int) -> Seq<BindingView>
    decreases hi - lo,
{
    if lo >= hi {
        Seq::empty()
    } else {
        param_at(t, scopes, lo) + params_in(t, scopes, t.next(lo, hi), hi)
    }
}

/// Adds the names that the parameters in the list `i` introduce.
fn collect_params(tree: &SyntaxTree, i: usize, scopes: &Vec<Scope>, out: &mut Vec<Binding>)
    requires
        i < tree@.len(),
    ensures
        views(final(out)@)
            == views(old(out)@) + params_in(tree@, scopes@, i + 1, tree@.after(i as int)),
{
    let hi: usize = tree.after(i);
    let mut lo: usize = i + 1;
    while lo < hi
        invariant
            i < lo,
            i < tree@.len(),
            hi == tree@.after(i as int),
            hi <= tree@.len(),
            views(out@) + params_in(tree@, scopes@, lo as int, hi as int) == views(old(out)@)
                + params_in(tree@, scopes@, i + 1, hi as int),
        decreases hi - lo,
    {
        if tree.named(lo) && tree.is(lo, "parameter") {
            if let Some(n) = tree.child(lo, "name") {
                let declared_type = read_written_type(tree, lo);
                push_typed_binding(
                    out,
                    tree.text(n).to_owned(),
                    tree.start(n),
                    BindingKind::Param,
                    scopes,
                    declared_type,
                );
            }
        }
        lo = tree.next(lo, hi);
    }
}

/// The names that node `i` itself introduces: the parameters of a method, the
/// variables of a declaration, that of a loop and that of a handler.
pub open spec fn introduced(t: Syntax, scopes: Seq<Scope>, i: int) -> Seq<BindingView> {
    let kind = t.kind(i);
    if kind == "method_declaration"@ || kind == "constructor_declaration"@ {
        match t.child(i, "parameters"@) {
            Some(params) => params_in(t, scopes, params + 1, t.after(params)),
            None => Seq::empty(),
        }
    } else if kind == "local_declaration_statement"@ {
        declared_in(t, scopes, i + 1, t.after(i))
    } else if kind == "foreach_statement"@ {
        match t.child(i, "left"@) {
            Some(n) => if t.kind(n) == "identifier"@ && !at_file_level(scopes, t.start(n)) {
                seq![local_binding(scopes, t.text(n), t.start(n), BindingKind::Local, None)]
            } else {
                Seq::empty()
            },
            None => Seq::empty(),
        }
    } else if kind == "catch_clause"@ {
        match t.child_of_kind(i, "catch_declaration"@) {
            Some(d) => match t.child(d, "name"@) {
                Some(n) => seq![
                    local_binding(scopes, t.text(n), t.start(n), BindingKind::Param, None),
                ],
                None => Seq::empty(),
            },
            None => Seq::empty(),
        }
    } else {
        Seq::empty()
    }
}

/// The names that are introduced in the subtree of node `i`.
pub open spec fn bindings_at(t: Syntax, scopes: Seq<Scope>, i: int) -> Seq<BindingView>
    decreases t.left(i), 0nat,
{
    if !t.has(i) {
        Seq::empty()
    } else {
        introduced(t, scopes, i) + bindings_in(t, scopes, i + 1, t.after(i))
    }
}

/// The names that are introduced in the subtrees of the nodes `lo..hi`.
pub open spec fn bindings_in(t: Syntax, scopes: Seq<Scope>, lo: int, hi: int) -> Seq<BindingView>
    decreases t.left(lo), 1nat,
{
    if lo >= hi || !t.has(lo) {
        Seq::empty()
    } else {
        bindings_at(t, scopes, lo) + bindings_in(t, scopes, t.next(lo, hi), hi)
    }
}

/// Adds the names that are introduced in the subtree of node `i`.
fn collect_bindings_dfs(tree: &SyntaxTree, i: usize, scopes: &Vec<Scope>, out: &mut Vec<Binding>)
    requires
        i < tree@.len(),
    ensures
        views(final(out)@) == views(old(out)@) + bindings_at(tree@, scopes@, i as int),
    decreases tree@.left(i as int),
{
    if tree.is(i, "method_declaration") || tree.is(i, "constructor_declaration") {
        if let Some(params) = tree.child(i, "parameters") {
            collect_params(tree, params, scopes, out);
        }
    } else if tree.is(i, "local_declaration_statement") {
        push_declared(tree, i, scopes, out);
    } else if tree.is(i, "foreach_statement") {
        if let Some(n) = tree.child(i, "left") {
            let intro: usize = tree.start(n);
            if tree.is(n, "identifier") && !is_file_level(intro, scopes) {
                push_binding(out, tree.text(n).to_owned(), intro, BindingKind::Local, scopes);
            }
        }
    } else if tree.is(i, "catch_clause") {
        if let Some(d) = tree.child_of_kind(i, "catch_declaration") {
            if let Some(n) = tree.child(d, "name") {
                let intro: usize = tree.start(n);
                push_binding(out, tree.text(n).to_owned(), intro, BindingKind::Param, scopes);
            }
        }
    }
    let hi: usize = tree.after(i);
    let mut lo: usize = i + 1;
    while lo < hi
        invariant
            i < lo,
            i < tree@.len(),
            hi == tree@.after(i as int),
            hi <= tree@.len(),
            views(out@) + bindings_in(tree@, scopes@, lo as int, hi as int) == views(old(out)@)
                + bindings_at(tree@, scopes@, i as int),
        decreases hi - lo,
    {
        collect_bindings_dfs(tree, lo, scopes, out);
        lo = tree.next(lo, hi);
    }
}

/// The names that are introduced of node `i` itself, for each `i`.
pub open spec fn bindings_of_nodes(
    t: Syntax,
    scopes: Seq<Scope>,
) -> spec_fn(int) -> Seq<BindingView> {
    |j: int| introduced(t, scopes, j)
}

/// The names that are introduced in a subtree are those of its nodes, in
/// document order: none is missed and none is reported twice.
pub proof fn bindings_in_document_order(t: Syntax, scopes: Seq<Scope>, i: int)
    requires
        t.nested(),
        t.has(i),
    ensures
        bindings_at(t, scopes, i) == in_order(bindings_of_nodes(t, scopes), i, t.after(i)),
    decreases t.left(i), 0nat,
{
    let items = bindings_of_nodes(t, scopes);
    bindings_of_siblings(t, scopes, i + 1, t.after(i));
    assert(in_order(items, i, t.after(i)) == items(i) + in_order(items, i + 1, t.after(i)));
    assert(Seq::<BindingView>::empty() + items(i) =~= items(i) + Seq::<BindingView>::empty());
}

proof fn bindings_of_siblings(t: Syntax, scopes: Seq<Scope>, lo: int, hi: int)
    requires
        t.nested(),
        t.closed_range(lo, hi),
    ensures
        bindings_in(t, scopes, lo, hi) == in_order(bindings_of_nodes(t, scopes), lo, hi),
    decreases t.left(lo), 1nat,
{
    if lo < hi {
        let items = bindings_of_nodes(t, scopes);
        bindings_in_document_order(t, scopes, lo);
        bindings_of_siblings(t, scopes, t.after(lo), hi);
        in_order_split(items, lo, t.after(lo), hi);
    }
}

/// The names that are introduced in a C# file below the file as a whole.
fn collect_bindings(tree: &SyntaxTree, scopes: &Vec<Scope>) -> (out: Vec<Binding>)
    ensures
        views(out@) == bindings_at(tree@, scopes@, 0),
{
    let mut out: Vec<Binding> = Vec::new();
    proof {
        views_empty::<Binding>();
    }
    if tree.len() > 0 {
        collect_bindings_dfs(tree, 0, scopes, &mut out);
    }
    out
}

// ── Facts ────────────────────────────────────────────────────────────────────

/// The calls: names that are called, with what they are members of, and the
/// types of objects that are made.
pub const CALL_QUERY: &'static str = r#"
[
  (invocation_expression function: (identifier) @callee)
  (invocation_expression function: (generic_name (identifier) @callee))
  (invocation_expression function: (member_access_expression expression: (_) @qualifier name: (identifier) @callee))
  (invocation_expression function: (member_access_expression expression: (_) @qualifier name: (generic_name (identifier) @callee)))
  (invocation_expression function: (member_access_expression expression: "this" name: (identifier) @callee))
  (invocation_expression function: (member_access_expression expression: "this" name: (generic_name (identifier) @callee)))
  (object_creation_expression type: (identifier) @callee)
  (object_creation_expression type: (qualified_name name: (identifier) @callee))
  (object_creation_expression type: (generic_name (identifier) @callee))
]
"#;

/// The calls of members of `this`. They are among those of [`CALL_QUERY`], so a
/// query of its own keeps each call from being reported twice.
pub const SELF_CALL_QUERY: &'static str = r#"
[
  (invocation_expression
    function: (member_access_expression
      expression: "this"
      name: (identifier) @callee))
  (invocation_expression
    function: (member_access_expression
      expression: "this"
      name: (generic_name (identifier) @callee)))
]
"#;

/// The references of a C# file, without their scopes.
pub open spec fn references_of(
    t: Syntax,
    file: Seq<char>,
    module: Seq<char>,
    found: Seq<Seq<CaptureView>>,
    on_self: Seq<Seq<CaptureView>>,
) -> Seq<ReferenceView> {
    calls_marked(t.source, file, found, on_self) + inherits_at(t, file, 0)
        + imports_at(t, file, module, 0) + type_refs_at(t, file, 0) + reads_at(t, file, 0)
        + writes_at(t, file, 0)
}

/// The facts of a C# file with the nodes `t`, where `found` and `on_self` are the matches
/// of the queries on calls.
pub open spec fn facts_of(
    t: Syntax,
    file: Seq<char>,
    found: Seq<Seq<CaptureView>>,
    on_self: Seq<Seq<CaptureView>>,
) -> FileFactsView {
    let source_len = byte_count(t.source) as int;
    let ns = namespaces_of(t, file);
    let defs = types_in(
        Ctx { tree: t, file, lang: Language::CSharp },
        namespace_steps(ns),
        false,
        1,
        t.after(0),
    );
    let module = module_view(Language::CSharp, ns, file, source_len);
    let scopes = scopes_of(t, source_len);
    let references = all_scoped(
        scopes,
        references_of(t, file, scip_text(module.id), found, on_self),
    );
    FileFactsView {
        file,
        lang: Language::CSharp.tag(),
        symbols: defs + seq![module],
        references,
        scopes,
        bindings: bindings_at(t, scopes, 0) + definitions_bound(defs) + imports_bound(
            scopes,
            references,
        ),
        ffi_exports: Seq::empty(),
    }
}

/// The facts of a C# file, from its nodes and the matches of the queries on
/// calls.
pub fn file_facts(
    tree: &SyntaxTree,
    file: &str,
    found: &Vec<Match>,
    on_self: &Vec<Match>,
) -> (facts: FileFacts)
    ensures
        facts@ == facts_of(tree@, file@, views(found@), views(on_self@)),
        coherent(facts@, byte_count(tree@.source) as int),
        imports_are_bound(facts@),
{
    let source_len: usize = byte_length(tree.source());
    let namespaces = csharp_namespaces(tree, file);
    let ctx = ExtractCtx { tree, file, lang: Language::CSharp };
    let defs = collect_symbols(&ctx, &namespaces);
    let def_bindings = definition_bindings(&defs);
    let ghost own = views(defs@);
    let mut symbols = defs;
    let module = module_symbol(Language::CSharp, namespaces.as_slice(), file, source_len);
    let module_id = module.id.to_scip_string();
    put(&mut symbols, module);
    let mut references = collect_call_references(tree.source(), file, found);
    mark_self_receiver_calls(&mut references, on_self);
    if tree.len() > 0 {
        collect_inheritance(tree, 0, file, &mut references);
        collect_imports(tree, 0, file, module_id.as_str(), &mut references);
        collect_type_references(tree, 0, file, &mut references);
        collect_read_references(tree, 0, file, &mut references);
        collect_write_references(tree, 0, file, &mut references);
    }
    assert(views(references@)
        =~= references_of(tree@, file@, module_id@, views(found@), views(on_self@)));
    let scopes = collect_scopes(tree, source_len);
    let ghost plain = views(references@);
    attach_reference_scopes(&mut references, &scopes);
    let mut bindings = collect_bindings(tree, &scopes);
    let ghost locals = views(bindings@);
    put_all(&mut bindings, def_bindings);
    put_all(&mut bindings, import_bindings(&references, &scopes));
    proof {
        views_empty::<FfiExport>();
    }
    let facts = FileFacts {
        file: file.to_owned(),
        lang: Language::CSharp.as_str().to_owned(),
        symbols,
        references,
        scopes,
        bindings,
        ffi_exports: Vec::new(),
    };
    proof {
        let imports = imports_bound(facts@.scopes, facts@.references);
        facts_are_coherent(facts@, own, plain, locals, imports, source_len as int);
        facts_bind_imports(facts@, locals + definitions_bound(own));
    }
    facts
}

/// Reads C# files.
pub struct CSharpExtractor;

impl Extractor for CSharpExtractor {
    open spec fn language(&self) -> Language {
        Language::CSharp
    }

    open spec fn facts(&self, tree: tree_sitter::Tree, file: Seq<char>) -> Result<
        FileFactsView,
        ErrorView,
    > {
        match (
            answer_to(tree, CALL_QUERY@),
            answer_to(tree, SELF_CALL_QUERY@),
        ) {
            (Some(found), Some(on_self)) => Ok(
                facts_of(syntax_of(tree), file, found, on_self),
            ),
            _ => Err(ErrorView::Query { path: file }),
        }
    }

    fn lang(&self) -> (lang: Language) {
        Language::CSharp
    }

    fn extract_facts(&self, source: &str, file: &str) -> (result: Result<
        FileFacts,
        CodegraphError,
    >) {
        let parsed = match parse(Language::CSharp, source) {
            Some(parsed) => parsed,
            None => {
                return Err(CodegraphError::Parse { path: file.to_owned() });
            },
        };
        if let Some(found) = parsed.query(CALL_QUERY) {
            if let Some(on_self) = parsed.query(SELF_CALL_QUERY) {
                return Ok(file_facts(parsed.syntax(), file, &found, &on_self));
            }
        }
        Err(CodegraphError::Query { path: file.to_owned() })
    }
}

} // verus!
