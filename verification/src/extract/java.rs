//! The facts of Java files.

use crate::error::{CodegraphError, ErrorView};
use crate::graph::types::{
    Binding, BindingKind, BindingView, ByteSpan, EntryPoint, EntryPointView, FfiExport, FileFacts,
    FileFactsView, RefRole, Reference, ReferenceView, Scope, ScopeId, ScopeKind, Symbol, SymbolKind,
    SymbolView, TypeRefContext, Visibility,
};
use crate::items::{in_order, in_order_none, in_order_split, put, put_all, views, views_empty};
use crate::lang::Language;
use crate::parse::{answer_to, parse, syntax_of, CaptureView, Match};
use crate::symbol::{
    copy_descriptors, method_view, namespace_steps, scip_text, Descriptor, DescriptorView,
};
use crate::syntax::{group_child_bounds, opt_index, Syntax, SyntaxTree};
use crate::text::{
    byte_count, byte_length, opt_text, same, segments, simple_name, simple_type_name,
    split_segments, strip_prefix, strip_suffix, without_prefix, without_suffix,
};
use vstd::prelude::*;
use vstd::string::StringExecFns;

use super::{
    all_scoped, are_file_scopes, at_file_level, attach_reference_scopes, calls_qualified, coherent,
    collect_call_references, define, defined_at, definition_bindings, definitions_bound, extends,
    facts_are_coherent, facts_bind_imports, import_at, import_bindings, imports_are_bound,
    imports_bound, is_file_level, is_reportable, is_scope_tree, local_binding,
    mark_receiver_qualifier_calls, mark_self_receiver_calls, module_scope, module_symbol,
    module_view, namespace_descriptors, nests_under, node_span, push_binding, push_import_ref,
    push_ref, push_scope, push_type_ref, push_typed_binding, reference_at, reportable, scopes_nest,
    span_at, spans_nest, type_reference_at, Ctx, ExtractCtx, Extractor,
};

verus! {

broadcast use group_child_bounds;

// ── Namespaces ───────────────────────────────────────────────────────────────

/// The first name among the parts `lo..hi` of a package declaration.
pub open spec fn package_name_in(t: Syntax, lo: int, hi: int) -> Option<Seq<char>>
    decreases hi - lo,
{
    if lo >= hi {
        None
    } else if t.kind(lo) == "scoped_identifier"@ || t.kind(lo) == "identifier"@ {
        Some(t.text(lo))
    } else {
        package_name_in(t, t.next(lo, hi), hi)
    }
}

/// The name of the first package that one of the nodes `lo..hi` declares.
pub open spec fn declared_package(t: Syntax, lo: int, hi: int) -> Option<Seq<char>>
    decreases hi - lo,
{
    if lo >= hi {
        None
    } else if t.kind(lo) == "package_declaration"@
        && package_name_in(t, lo + 1, t.after(lo)) is Some {
        package_name_in(t, lo + 1, t.after(lo))
    } else {
        declared_package(t, t.next(lo, hi), hi)
    }
}

/// The namespaces of a Java file: the parts of the name of its package. A file
/// without one has the pieces of its path, without `src/` in front and without
/// `.java` at the end.
pub open spec fn namespaces_of(t: Syntax, file: Seq<char>) -> Seq<Seq<char>> {
    match declared_package(t, 1, t.after(0)) {
        Some(name) => segments(name, '.'),
        None => segments(without_prefix(without_suffix(file, ".java"@), "src/"@), '/'),
    }
}

/// The first name of the package declaration `i`.
fn find_package_name(tree: &SyntaxTree, i: usize) -> (name: Option<String>)
    requires
        i < tree@.len(),
    ensures
        opt_text(name) == package_name_in(tree@, i + 1, tree@.after(i as int)),
{
    let hi: usize = tree.after(i);
    let mut lo: usize = i + 1;
    while lo < hi
        invariant
            i < lo,
            hi == tree@.after(i as int),
            hi <= tree@.len(),
            package_name_in(tree@, lo as int, hi as int) == package_name_in(
                tree@,
                i + 1,
                hi as int,
            ),
        decreases hi - lo,
    {
        if tree.is(lo, "scoped_identifier") || tree.is(lo, "identifier") {
            return Some(tree.text(lo).to_owned());
        }
        lo = tree.next(lo, hi);
    }
    None
}

/// The name of the package that a Java file declares.
fn read_package(tree: &SyntaxTree) -> (name: Option<String>)
    ensures
        opt_text(name) == declared_package(tree@, 1, tree@.after(0)),
{
    if tree.len() > 0 {
        let hi: usize = tree.after(0);
        let mut lo: usize = 1;
        while lo < hi
            invariant
                hi == tree@.after(0),
                hi <= tree@.len(),
                declared_package(tree@, lo as int, hi as int) == declared_package(
                    tree@,
                    1,
                    hi as int,
                ),
            decreases hi - lo,
        {
            if tree.is(lo, "package_declaration") {
                if let Some(name) = find_package_name(tree, lo) {
                    return Some(name);
                }
            }
            lo = tree.next(lo, hi);
        }
    }
    None
}

/// The namespaces of a Java file.
pub fn java_namespaces(tree: &SyntaxTree, file: &str) -> (namespaces: Vec<String>)
    ensures
        views(namespaces@) == namespaces_of(tree@, file@),
{
    match read_package(tree) {
        Some(name) => split_segments(name.as_str(), '.'),
        None => split_segments(strip_prefix(strip_suffix(file, ".java"), "src/"), '/'),
    }
}

/// The parts of the name of the package that a Java file declares. The default
/// package has none.
pub open spec fn package_parts(t: Syntax) -> Seq<Seq<char>> {
    match declared_package(t, 1, t.after(0)) {
        Some(name) => segments(name, '.'),
        None => Seq::empty(),
    }
}

/// The parts of the name of the package that a Java file declares.
pub fn java_package(tree: &SyntaxTree) -> (parts: Vec<String>)
    ensures
        views(parts@) == package_parts(tree@),
{
    match read_package(tree) {
        Some(name) => split_segments(name.as_str(), '.'),
        None => {
            proof {
                views_empty::<String>();
            }
            Vec::new()
        },
    }
}

// ── Modifiers ────────────────────────────────────────────────────────────────

/// Whether one of the nodes `lo..hi` is the word `word`.
pub open spec fn word_in(t: Syntax, lo: int, hi: int, word: Seq<char>) -> bool
    decreases hi - lo,
{
    lo < hi && (t.text(lo) == word || word_in(t, t.next(lo, hi), hi, word))
}

/// Whether the declaration `i` has the modifier `word`.
pub open spec fn modified(t: Syntax, i: int, word: Seq<char>) -> bool {
    match t.child_of_kind(i, "modifiers"@) {
        Some(m) => word_in(t, m + 1, t.after(m), word),
        None => false,
    }
}

/// Whether the declaration `i` has the modifier `word`.
fn has_modifier(tree: &SyntaxTree, i: usize, word: &str) -> (b: bool)
    requires
        i < tree@.len(),
    ensures
        b == modified(tree@, i as int, word@),
{
    let m: usize = match tree.child_of_kind(i, "modifiers") {
        Some(m) => m,
        None => {
            return false;
        },
    };
    let hi: usize = tree.after(m);
    let mut lo: usize = m + 1;
    while lo < hi
        invariant
            m < lo,
            hi <= tree@.len(),
            word_in(tree@, lo as int, hi as int, word@) == modified(tree@, i as int, word@),
        decreases hi - lo,
    {
        if same(tree.text(lo), word) {
            return true;
        }
        lo = tree.next(lo, hi);
    }
    false
}

/// Who can see the declaration `i`: `private` goes before `protected`, that
/// before `public`. A declaration with none of these is public in a type whose
/// members are so without saying it, and else internal to its package.
pub open spec fn visibility_at(t: Syntax, i: int, implicit: bool) -> Visibility {
    if modified(t, i, "private"@) {
        Visibility::Private
    } else if modified(t, i, "protected"@) {
        Visibility::Protected
    } else if modified(t, i, "public"@) || implicit {
        Visibility::Public
    } else {
        Visibility::Internal
    }
}

/// Who can see the declaration `i`.
fn read_visibility(tree: &SyntaxTree, i: usize, implicit: bool) -> (visibility: Visibility)
    requires
        i < tree@.len(),
    ensures
        visibility == visibility_at(tree@, i as int, implicit),
{
    if has_modifier(tree, i, "private") {
        Visibility::Private
    } else if has_modifier(tree, i, "protected") {
        Visibility::Protected
    } else if has_modifier(tree, i, "public") || implicit {
        Visibility::Public
    } else {
        Visibility::Internal
    }
}

// ── Entry points ─────────────────────────────────────────────────────────────

/// Whether an annotation of this name marks what answers requests: those of
/// Spring for classes and methods, and those of JAX-RS.
pub open spec fn is_route(name: Seq<char>) -> bool {
    name == "RestController"@ || name == "Controller"@ || name == "RequestMapping"@
        || name == "GetMapping"@ || name == "PostMapping"@ || name == "PutMapping"@
        || name == "DeleteMapping"@ || name == "PatchMapping"@ || name == "GET"@
        || name == "POST"@ || name == "PUT"@ || name == "DELETE"@ || name == "PATCH"@
        || name == "HEAD"@ || name == "OPTIONS"@ || name == "Path"@
}

/// Whether an annotation of this name marks what answers requests.
fn names_route(name: &str) -> (b: bool)
    ensures
        b == is_route(name@),
{
    same(name, "RestController") || same(name, "Controller") || same(name, "RequestMapping")
        || same(name, "GetMapping") || same(name, "PostMapping") || same(name, "PutMapping")
        || same(name, "DeleteMapping") || same(name, "PatchMapping") || same(name, "GET")
        || same(name, "POST") || same(name, "PUT") || same(name, "DELETE")
        || same(name, "PATCH") || same(name, "HEAD") || same(name, "OPTIONS")
        || same(name, "Path")
}

/// The entry point that the modifier `i` marks: an annotation goes by its name,
/// without the package that it is qualified with.
pub open spec fn route_of(t: Syntax, i: int) -> Seq<EntryPointView> {
    match t.field_text(i, "name"@) {
        Some(raw) => if (t.kind(i) == "marker_annotation"@ || t.kind(i) == "annotation"@)
            && is_route(simple_name(raw, "."@)) {
            seq![EntryPointView::HttpRoute(simple_name(raw, "."@))]
        } else {
            Seq::empty()
        },
        None => Seq::empty(),
    }
}

/// The entry points that the modifiers `lo..hi` mark.
pub open spec fn routes_in(t: Syntax, lo: int, hi: int) -> Seq<EntryPointView>
    decreases hi - lo,
{
    if lo >= hi {
        Seq::empty()
    } else {
        route_of(t, lo) + routes_in(t, t.next(lo, hi), hi)
    }
}

/// Adds the entry points that the modifiers in `i` mark.
fn push_routes(tree: &SyntaxTree, i: usize, out: &mut Vec<EntryPoint>)
    requires
        i < tree@.len(),
    ensures
        views(final(out)@) == views(old(out)@) + routes_in(tree@, i + 1, tree@.after(i as int)),
{
    let hi: usize = tree.after(i);
    let mut lo: usize = i + 1;
    while lo < hi
        invariant
            i < lo,
            i < tree@.len(),
            hi == tree@.after(i as int),
            hi <= tree@.len(),
            views(out@) + routes_in(tree@, lo as int, hi as int) == views(old(out)@)
                + routes_in(tree@, i + 1, hi as int),
        decreases hi - lo,
    {
        if tree.is(lo, "marker_annotation") || tree.is(lo, "annotation") {
            if let Some(raw) = tree.field_text(lo, "name") {
                let simple = simple_type_name(raw.as_str(), ".");
                if names_route(simple) {
                    put(out, EntryPoint::HttpRoute(simple.to_owned()));
                }
            }
        }
        lo = tree.next(lo, hi);
    }
}

/// What starts at the declaration `i`: the program at a static method `main`, and
/// the answer to a request where an annotation says so.
pub open spec fn entry_points_at(t: Syntax, method_name: Option<Seq<char>>, i: int) -> Seq<
    EntryPointView,
> {
    (if method_name == Some("main"@) && modified(t, i, "static"@) {
        seq![EntryPointView::Main]
    } else {
        Seq::empty()
    }) + match t.child_of_kind(i, "modifiers"@) {
        Some(m) => routes_in(t, m + 1, t.after(m)),
        None => Seq::empty(),
    }
}

/// What starts at the declaration `i`.
fn entry_points_for_java(tree: &SyntaxTree, i: usize, method_name: Option<&str>) -> (markers: Vec<
    EntryPoint,
>)
    requires
        i < tree@.len(),
    ensures
        views(markers@) == entry_points_at(
            tree@,
            match method_name {
                Some(name) => Some(name@),
                None => None,
            },
            i as int,
        ),
{
    let mut markers: Vec<EntryPoint> = Vec::new();
    proof {
        views_empty::<EntryPoint>();
    }
    let is_main: bool = match method_name {
        Some(name) => same(name, "main"),
        None => false,
    };
    if is_main && has_modifier(tree, i, "static") {
        put(&mut markers, EntryPoint::Main);
    }
    if let Some(m) = tree.child_of_kind(i, "modifiers") {
        push_routes(tree, m, &mut markers);
    }
    markers
}

// ── Definitions ──────────────────────────────────────────────────────────────

/// The method or constructor that the member `i` declares.
pub open spec fn method_symbols(c: Ctx, prefix: Seq<DescriptorView>, implicit: bool, i: int) -> Seq<
    SymbolView,
> {
    match c.tree.field_text(i, "name"@) {
        Some(name) => seq![
            SymbolView {
                entry_points: entry_points_at(c.tree, Some(name), i),
                ..defined_at(
                    c,
                    prefix,
                    i,
                    name,
                    SymbolKind::Method,
                    visibility_at(c.tree, i, implicit),
                    method_view(name),
                    "{;"@,
                )
            },
        ],
        None => Seq::empty(),
    }
}

/// Adds the method or constructor that the member `i` declares.
fn push_method(
    ctx: &ExtractCtx<'_>,
    i: usize,
    prefix: &Vec<Descriptor>,
    implicit: bool,
    out: &mut Vec<Symbol>,
)
    requires
        i < ctx.tree@.len(),
    ensures
        views(final(out)@) == views(old(out)@) + method_symbols(
            ctx@,
            views(prefix@),
            implicit,
            i as int,
        ),
{
    let tree = ctx.tree;
    if let Some(name) = tree.field_text(i, "name") {
        let visibility = read_visibility(tree, i, implicit);
        let entry_points = entry_points_for_java(tree, i, Some(name.as_str()));
        let leaf = Descriptor::method(name.as_str().to_owned());
        let mut symbol = define(ctx, prefix, i, name, SymbolKind::Method, visibility, leaf, "{;");
        symbol.entry_points = entry_points;
        put(out, symbol);
    }
}

/// The field that the declarator `i` of the field declaration `owner` declares.
pub open spec fn field_symbols(
    c: Ctx,
    prefix: Seq<DescriptorView>,
    implicit: bool,
    owner: int,
    i: int,
) -> Seq<SymbolView> {
    match c.tree.field_text(i, "name"@) {
        Some(name) => if c.tree.in_field(i, "declarator"@) {
            seq![
                defined_at(
                    c,
                    prefix,
                    owner,
                    name,
                    SymbolKind::Static,
                    visibility_at(c.tree, owner, implicit),
                    DescriptorView::Term(name),
                    "{;"@,
                ),
            ]
        } else {
            Seq::empty()
        },
        None => Seq::empty(),
    }
}

/// The fields that the declarators among `lo..hi` of the field declaration `owner`
/// declare.
pub open spec fn fields_in(
    c: Ctx,
    prefix: Seq<DescriptorView>,
    implicit: bool,
    owner: int,
    lo: int,
    hi: int,
) -> Seq<SymbolView>
    decreases hi - lo,
{
    if lo >= hi {
        Seq::empty()
    } else {
        field_symbols(c, prefix, implicit, owner, lo)
            + fields_in(c, prefix, implicit, owner, c.tree.next(lo, hi), hi)
    }
}

/// Adds the fields that the declarators under node `i` of the field declaration
/// `owner` declare.
fn push_fields(
    ctx: &ExtractCtx<'_>,
    i: usize,
    prefix: &Vec<Descriptor>,
    implicit: bool,
    owner: usize,
    out: &mut Vec<Symbol>,
)
    requires
        i < ctx.tree@.len(),
        owner < ctx.tree@.len(),
    ensures
        views(final(out)@)
            == views(old(out)@)
                + fields_in(
                    ctx@,
                    views(prefix@),
                    implicit,
                    owner as int,
                    i + 1,
                    ctx.tree@.after(i as int),
                ),
{
    let tree = ctx.tree;
    let hi: usize = tree.after(i);
    let mut lo: usize = i + 1;
    while lo < hi
        invariant
            i < lo,
            i < tree@.len(),
            tree == ctx.tree,
            owner < tree@.len(),
            hi == tree@.after(i as int),
            hi <= tree@.len(),
            views(out@)
                + fields_in(ctx@, views(prefix@), implicit, owner as int, lo as int, hi as int)
                == views(old(out)@)
                + fields_in(ctx@, views(prefix@), implicit, owner as int, i + 1, hi as int),
        decreases hi - lo,
    {
        if tree.in_field(lo, "declarator") {
            if let Some(name) = tree.field_text(lo, "name") {
                let visibility = read_visibility(tree, owner, implicit);
                let leaf = Descriptor::Term(name.as_str().to_owned());
                let symbol = define(
                    ctx,
                    prefix,
                    owner,
                    name,
                    SymbolKind::Static,
                    visibility,
                    leaf,
                    "{;",
                );
                put(out, symbol);
            }
        }
        lo = tree.next(lo, hi);
    }
}

/// Whether the member `i` of a type is a method or a constructor. What an annotation
/// type asks for is a method.
pub open spec fn is_method(t: Syntax, i: int) -> bool {
    t.kind(i) == "method_declaration"@ || t.kind(i) == "constructor_declaration"@ || t.kind(i)
        == "compact_constructor_declaration"@ || t.kind(i) == "annotation_type_element_declaration"@
}

/// What the members `lo..hi` of a type declare: methods, constructors and fields,
/// the constants of an interface among them. Those of an enum stand one level
/// deeper, behind its constants.
pub open spec fn members_in(
    c: Ctx,
    prefix: Seq<DescriptorView>,
    implicit: bool,
    lo: int,
    hi: int,
) -> Seq<SymbolView>
    decreases c.tree.left(lo),
{
    let t = c.tree;
    if lo >= hi || !t.has(lo) {
        Seq::empty()
    } else {
        (if t.kind(lo) == "enum_body_declarations"@ {
            members_in(c, prefix, implicit, lo + 1, t.after(lo))
        } else if is_method(t, lo) {
            method_symbols(c, prefix, implicit, lo)
        } else if t.kind(lo) == "field_declaration"@ || t.kind(lo) == "constant_declaration"@ {
            fields_in(c, prefix, implicit, lo, lo + 1, t.after(lo))
        } else {
            Seq::empty()
        }) + members_in(c, prefix, implicit, t.next(lo, hi), hi)
    }
}

/// Adds what the members in the body `i` of a type declare.
fn collect_members(
    ctx: &ExtractCtx<'_>,
    i: usize,
    prefix: &Vec<Descriptor>,
    implicit: bool,
    out: &mut Vec<Symbol>,
)
    requires
        i < ctx.tree@.len(),
    ensures
        views(final(out)@) == views(old(out)@) + members_in(
            ctx@,
            views(prefix@),
            implicit,
            i + 1,
            ctx.tree@.after(i as int),
        ),
    decreases ctx.tree@.left(i as int),
{
    let tree = ctx.tree;
    let hi: usize = tree.after(i);
    let mut lo: usize = i + 1;
    while lo < hi
        invariant
            i < lo,
            i < tree@.len(),
            tree == ctx.tree,
            hi == tree@.after(i as int),
            hi <= tree@.len(),
            views(out@) + members_in(ctx@, views(prefix@), implicit, lo as int, hi as int)
                == views(old(out)@) + members_in(
                ctx@,
                views(prefix@),
                implicit,
                i + 1,
                hi as int,
            ),
        decreases hi - lo,
    {
        if tree.is(lo, "enum_body_declarations") {
            collect_members(ctx, lo, prefix, implicit, out);
        } else if tree.is(lo, "method_declaration") || tree.is(lo, "constructor_declaration")
            || tree.is(lo, "compact_constructor_declaration") || tree.is(
            lo,
            "annotation_type_element_declaration",
        ) {
            push_method(ctx, lo, prefix, implicit, out);
        } else if tree.is(lo, "field_declaration") || tree.is(lo, "constant_declaration") {
            push_fields(ctx, lo, prefix, implicit, lo, out);
        }
        lo = tree.next(lo, hi);
    }
}

/// The kind of the type that node `i` declares.
pub open spec fn type_kind(t: Syntax, i: int) -> Option<SymbolKind> {
    if t.kind(i) == "class_declaration"@ || t.kind(i) == "record_declaration"@ {
        Some(SymbolKind::Class)
    } else if t.kind(i) == "interface_declaration"@ || t.kind(i)
        == "annotation_type_declaration"@ {
        Some(SymbolKind::Interface)
    } else if t.kind(i) == "enum_declaration"@ {
        Some(SymbolKind::Enum)
    } else {
        None
    }
}

/// The kind of the type that node `i` declares.
fn read_type_kind(tree: &SyntaxTree, i: usize) -> (kind: Option<SymbolKind>)
    ensures
        kind == type_kind(tree@, i as int),
{
    if tree.is(i, "class_declaration") || tree.is(i, "record_declaration") {
        Some(SymbolKind::Class)
    } else if tree.is(i, "interface_declaration") || tree.is(i, "annotation_type_declaration") {
        Some(SymbolKind::Interface)
    } else if tree.is(i, "enum_declaration") {
        Some(SymbolKind::Enum)
    } else {
        None
    }
}

/// The type that node `i` declares, with its members. Those of an interface are
/// public without saying so.
pub open spec fn type_symbols(c: Ctx, prefix: Seq<DescriptorView>, i: int) -> Seq<SymbolView> {
    let t = c.tree;
    match (type_kind(t, i), t.field_text(i, "name"@)) {
        (Some(kind), Some(name)) => seq![
            SymbolView {
                entry_points: entry_points_at(t, None, i),
                ..defined_at(
                    c,
                    prefix,
                    i,
                    name,
                    kind,
                    visibility_at(t, i, false),
                    DescriptorView::Type(name),
                    "{;"@,
                )
            },
        ] + match t.child(i, "body"@) {
            Some(body) => members_in(
                c,
                prefix + seq![DescriptorView::Type(name)],
                kind == SymbolKind::Interface,
                body + 1,
                t.after(body),
            ),
            None => Seq::empty(),
        },
        _ => Seq::empty(),
    }
}

/// What the nodes `lo..hi` at the top of a Java file declare.
pub open spec fn symbols_in(
    c: Ctx,
    prefix: Seq<DescriptorView>,
    lo: int,
    hi: int,
) -> Seq<SymbolView>
    decreases hi - lo,
{
    if lo >= hi {
        Seq::empty()
    } else {
        type_symbols(c, prefix, lo) + symbols_in(c, prefix, c.tree.next(lo, hi), hi)
    }
}

/// Adds what the children of node `i` declare.
fn push_types(ctx: &ExtractCtx<'_>, i: usize, prefix: &Vec<Descriptor>, out: &mut Vec<Symbol>)
    requires
        i < ctx.tree@.len(),
    ensures
        views(final(out)@)
            == views(old(out)@)
                + symbols_in(ctx@, views(prefix@), i + 1, ctx.tree@.after(i as int)),
{
    let tree = ctx.tree;
    let hi: usize = tree.after(i);
    let mut lo: usize = i + 1;
    while lo < hi
        invariant
            i < lo,
            i < tree@.len(),
            tree == ctx.tree,
            hi == tree@.after(i as int),
            hi <= tree@.len(),
            views(out@) + symbols_in(ctx@, views(prefix@), lo as int, hi as int) == views(old(out)@)
                + symbols_in(ctx@, views(prefix@), i + 1, hi as int),
        decreases hi - lo,
    {
        if let Some(kind) = read_type_kind(tree, lo) {
            if let Some(name) = tree.field_text(lo, "name") {
                let visibility = read_visibility(tree, lo, false);
                let entry_points = entry_points_for_java(tree, lo, None);
                let mut inner = copy_descriptors(prefix);
                put(&mut inner, Descriptor::Type(name.as_str().to_owned()));
                let leaf = Descriptor::Type(name.as_str().to_owned());
                let mut symbol = define(ctx, prefix, lo, name, kind, visibility, leaf, "{;");
                symbol.entry_points = entry_points;
                put(out, symbol);
                if let Some(body) = tree.child(lo, "body") {
                    let is_interface: bool = kind == SymbolKind::Interface;
                    collect_members(ctx, body, &inner, is_interface, out);
                }
            }
        }
        lo = tree.next(lo, hi);
    }
}

/// What a Java file declares.
fn collect_symbols(ctx: &ExtractCtx<'_>, namespaces: &Vec<String>) -> (out: Vec<Symbol>)
    ensures
        views(out@) == symbols_in(
            ctx@,
            namespace_steps(views(namespaces@)),
            1,
            ctx.tree@.after(0),
        ),
{
    let prefix = namespace_descriptors(namespaces);
    let mut out: Vec<Symbol> = Vec::new();
    proof {
        views_empty::<Symbol>();
    }
    if ctx.tree.len() > 0 {
        push_types(ctx, 0, &prefix, &mut out);
    }
    out
}

// ── Inheritance ──────────────────────────────────────────────────────────────

/// The reference to the base type `i`.
pub open spec fn base_of(t: Syntax, file: Seq<char>, i: int) -> ReferenceView {
    reference_at(t, file, i, simple_name(t.text(i), "."@), RefRole::IsImplementation)
}

/// The references to the base types among `lo..hi`.
pub open spec fn listed_in(t: Syntax, file: Seq<char>, lo: int, hi: int) -> Seq<ReferenceView>
    decreases hi - lo,
{
    if lo >= hi {
        Seq::empty()
    } else {
        (if t.named(lo) {
            seq![base_of(t, file, lo)]
        } else {
            Seq::empty()
        }) + listed_in(t, file, t.next(lo, hi), hi)
    }
}

/// Adds the references to the base types in the list `i`.
fn push_listed(tree: &SyntaxTree, i: usize, file: &str, out: &mut Vec<Reference>)
    requires
        i < tree@.len(),
    ensures
        views(final(out)@)
            == views(old(out)@) + listed_in(tree@, file@, i + 1, tree@.after(i as int)),
{
    let hi: usize = tree.after(i);
    let mut lo: usize = i + 1;
    while lo < hi
        invariant
            i < lo,
            i < tree@.len(),
            hi == tree@.after(i as int),
            hi <= tree@.len(),
            views(out@) + listed_in(tree@, file@, lo as int, hi as int) == views(old(out)@)
                + listed_in(tree@, file@, i + 1, hi as int),
        decreases hi - lo,
    {
        if tree.named(lo) {
            let name = simple_type_name(tree.text(lo), ".");
            push_ref(out, tree, file, lo, name, RefRole::IsImplementation);
        }
        lo = tree.next(lo, hi);
    }
}

/// The references to the base types that the clause `i` lists.
pub open spec fn clause_bases(t: Syntax, file: Seq<char>, i: int) -> Seq<ReferenceView> {
    match t.child_of_kind(i, "type_list"@) {
        Some(list) => listed_in(t, file, list + 1, t.after(list)),
        None => Seq::empty(),
    }
}

/// Adds the references to the base types that the clause `i` lists.
fn push_type_list_refs(tree: &SyntaxTree, i: usize, file: &str, out: &mut Vec<Reference>)
    requires
        i < tree@.len(),
    ensures
        views(final(out)@) == views(old(out)@) + clause_bases(tree@, file@, i as int),
{
    if let Some(list) = tree.child_of_kind(i, "type_list") {
        push_listed(tree, list, file, out);
    }
}

/// The references to the base types of the class or interface `i`.
pub open spec fn declared_bases(t: Syntax, file: Seq<char>, i: int) -> Seq<ReferenceView> {
    if t.kind(i) == "class_declaration"@ {
        (match t.child(i, "superclass"@) {
            Some(s) => match t.named_child(s) {
                Some(base) => seq![base_of(t, file, base)],
                None => Seq::empty(),
            },
            None => Seq::empty(),
        }) + match t.child(i, "interfaces"@) {
            Some(clause) => clause_bases(t, file, clause),
            None => Seq::empty(),
        }
    } else if t.kind(i) == "interface_declaration"@ {
        match t.child_of_kind(i, "extends_interfaces"@) {
            Some(clause) => clause_bases(t, file, clause),
            None => Seq::empty(),
        }
    } else {
        Seq::empty()
    }
}

/// The references to base types in the subtree of node `i`.
pub open spec fn inherits_at(t: Syntax, file: Seq<char>, i: int) -> Seq<ReferenceView>
    decreases t.left(i), 0nat,
{
    if !t.has(i) {
        Seq::empty()
    } else {
        declared_bases(t, file, i) + inherits_in(t, file, i + 1, t.after(i))
    }
}

/// The references to base types in the subtrees of the nodes `lo..hi`.
pub open spec fn inherits_in(t: Syntax, file: Seq<char>, lo: int, hi: int) -> Seq<ReferenceView>
    decreases t.left(lo), 1nat,
{
    if lo >= hi || !t.has(lo) {
        Seq::empty()
    } else {
        inherits_at(t, file, lo) + inherits_in(t, file, t.next(lo, hi), hi)
    }
}

/// Adds the references to base types in the subtree of node `i`.
fn collect_inheritance(tree: &SyntaxTree, i: usize, file: &str, out: &mut Vec<Reference>)
    requires
        i < tree@.len(),
    ensures
        views(final(out)@) == views(old(out)@) + inherits_at(tree@, file@, i as int),
    decreases tree@.left(i as int),
{
    if tree.is(i, "class_declaration") {
        if let Some(s) = tree.child(i, "superclass") {
            if let Some(base) = tree.named_child(s) {
                let name = simple_type_name(tree.text(base), ".");
                push_ref(out, tree, file, base, name, RefRole::IsImplementation);
            }
        }
        if let Some(clause) = tree.child(i, "interfaces") {
            push_type_list_refs(tree, clause, file, out);
        }
    } else if tree.is(i, "interface_declaration") {
        if let Some(clause) = tree.child_of_kind(i, "extends_interfaces") {
            push_type_list_refs(tree, clause, file, out);
        }
    }
    let hi: usize = tree.after(i);
    let mut lo: usize = i + 1;
    while lo < hi
        invariant
            i < lo,
            i < tree@.len(),
            hi == tree@.after(i as int),
            hi <= tree@.len(),
            views(out@) + inherits_in(tree@, file@, lo as int, hi as int) == views(old(out)@)
                + inherits_at(tree@, file@, i as int),
        decreases hi - lo,
    {
        collect_inheritance(tree, lo, file, out);
        lo = tree.next(lo, hi);
    }
}

/// The references to base types of node `i` itself, for each `i`.
pub open spec fn inherits_of_nodes(
    t: Syntax,
    file: Seq<char>,
) -> spec_fn(int) -> Seq<ReferenceView> {
    |j: int| declared_bases(t, file, j)
}

/// The references to base types in a subtree are those of its nodes, in
/// document order: none is missed and none is reported twice.
pub proof fn inherits_in_document_order(t: Syntax, file: Seq<char>, i: int)
    requires
        t.nested(),
        t.has(i),
    ensures
        inherits_at(t, file, i) == in_order(inherits_of_nodes(t, file), i, t.after(i)),
    decreases t.left(i), 0nat,
{
    let items = inherits_of_nodes(t, file);
    inherits_of_siblings(t, file, i + 1, t.after(i));
    assert(in_order(items, i, t.after(i)) == items(i) + in_order(items, i + 1, t.after(i)));
    assert(Seq::<ReferenceView>::empty() + items(i) =~= items(i) + Seq::<ReferenceView>::empty());
}

proof fn inherits_of_siblings(t: Syntax, file: Seq<char>, lo: int, hi: int)
    requires
        t.nested(),
        t.closed_range(lo, hi),
    ensures
        inherits_in(t, file, lo, hi) == in_order(inherits_of_nodes(t, file), lo, hi),
    decreases t.left(lo), 1nat,
{
    if lo < hi {
        let items = inherits_of_nodes(t, file);
        inherits_in_document_order(t, file, lo);
        inherits_of_siblings(t, file, t.after(lo), hi);
        in_order_split(items, lo, t.after(lo), hi);
    }
}

// ── Imports ──────────────────────────────────────────────────────────────────

/// The import of the declaration `i`: the last part of its name, from what stands
/// before it. One with a wildcard names nothing.
pub open spec fn import_of(t: Syntax, file: Seq<char>, module: Seq<char>, i: int) -> Seq<
    ReferenceView,
> {
    if t.kind(i) != "import_declaration"@ || t.child_of_kind(i, "asterisk"@) is Some {
        Seq::empty()
    } else {
        match t.child_of_kind(i, "scoped_identifier"@) {
            Some(path) => match t.child(path, "name"@) {
                Some(n) => {
                    let from_path = match t.field_text(path, "scope"@) {
                        Some(scope) => scope,
                        None => Seq::empty(),
                    };
                    seq![import_at(t, file, n, t.text(n), module, from_path)]
                },
                None => Seq::empty(),
            },
            None => match t.child_of_kind(i, "identifier"@) {
                Some(n) => seq![import_at(t, file, n, t.text(n), module, Seq::empty())],
                None => Seq::empty(),
            },
        }
    }
}

/// Adds the import of the declaration `i`.
fn push_import(tree: &SyntaxTree, i: usize, file: &str, module: &str, out: &mut Vec<Reference>)
    requires
        i < tree@.len(),
    ensures
        views(final(out)@) == views(old(out)@) + import_of(tree@, file@, module@, i as int),
{
    if !tree.is(i, "import_declaration") || tree.child_of_kind(i, "asterisk").is_some() {
        return ;
    }
    proof {
        reveal_strlit("");
        assert(""@ =~= Seq::<char>::empty());
    }
    if let Some(path) = tree.child_of_kind(i, "scoped_identifier") {
        if let Some(n) = tree.child(path, "name") {
            let from_path = match tree.child(path, "scope") {
                Some(scope) => tree.text(scope),
                None => "",
            };
            push_import_ref(out, tree, file, n, tree.text(n), module, from_path);
        }
    } else if let Some(n) = tree.child_of_kind(i, "identifier") {
        push_import_ref(out, tree, file, n, tree.text(n), module, "");
    }
}

/// The imports in the subtree of node `i`.
pub open spec fn imports_at(
    t: Syntax,
    file: Seq<char>,
    module: Seq<char>,
    i: int,
) -> Seq<ReferenceView>
    decreases t.left(i), 0nat,
{
    if !t.has(i) {
        Seq::empty()
    } else if t.kind(i) == "import_declaration"@ {
        import_of(t, file, module, i)
    } else {
        import_of(t, file, module, i) + imports_in(t, file, module, i + 1, t.after(i))
    }
}

/// The imports in the subtrees of the nodes `lo..hi`.
pub open spec fn imports_in(
    t: Syntax,
    file: Seq<char>,
    module: Seq<char>,
    lo: int,
    hi: int,
) -> Seq<ReferenceView>
    decreases t.left(lo), 1nat,
{
    if lo >= hi || !t.has(lo) {
        Seq::empty()
    } else {
        imports_at(t, file, module, lo) + imports_in(t, file, module, t.next(lo, hi), hi)
    }
}

/// Adds the imports in the subtree of node `i`.
fn collect_imports(tree: &SyntaxTree, i: usize, file: &str, module: &str, out: &mut Vec<Reference>)
    requires
        i < tree@.len(),
    ensures
        views(final(out)@) == views(old(out)@) + imports_at(tree@, file@, module@, i as int),
    decreases tree@.left(i as int),
{
    push_import(tree, i, file, module, out);
    if tree.is(i, "import_declaration") {
        return ;
    }
    let hi: usize = tree.after(i);
    let mut lo: usize = i + 1;
    while lo < hi
        invariant
            i < lo,
            i < tree@.len(),
            hi == tree@.after(i as int),
            hi <= tree@.len(),
            views(out@) + imports_in(tree@, file@, module@, lo as int, hi as int)
                == views(old(out)@)
                + imports_at(tree@, file@, module@, i as int),
        decreases hi - lo,
    {
        collect_imports(tree, lo, file, module, out);
        lo = tree.next(lo, hi);
    }
}

/// The imports of node `i` itself, for each `i`.
pub open spec fn imports_of_nodes(
    t: Syntax,
    file: Seq<char>,
    module: Seq<char>,
) -> spec_fn(int) -> Seq<ReferenceView> {
    |j: int| import_of(t, file, module, j)
}

/// The imports in a subtree are those of its nodes, in document order: none is missed
/// and none is reported twice.
pub proof fn imports_in_document_order(t: Syntax, file: Seq<char>, module: Seq<char>, i: int)
    requires
        t.nested(),
        t.has(i),
        forall|j: int, k: int|
            t.has(j) && t.kind(j) == "import_declaration"@ && j < k < #[trigger] t.after(j)
                ==> #[trigger] t.kind(k) != "import_declaration"@,
    ensures
        imports_at(t, file, module, i) == in_order(
            imports_of_nodes(t, file, module),
            i,
            t.after(i),
        ),
    decreases t.left(i), 0nat,
{
    let items = imports_of_nodes(t, file, module);
    if t.kind(i) == "import_declaration"@ {
        in_order_none(items, i + 1, t.after(i));
    } else {
        imports_of_siblings(t, file, module, i + 1, t.after(i));
    }
    assert(in_order(items, i, t.after(i)) == items(i) + in_order(items, i + 1, t.after(i)));
    assert(Seq::<ReferenceView>::empty() + items(i) =~= items(i) + Seq::<ReferenceView>::empty());
}

proof fn imports_of_siblings(t: Syntax, file: Seq<char>, module: Seq<char>, lo: int, hi: int)
    requires
        t.nested(),
        t.closed_range(lo, hi),
        forall|j: int, k: int|
            t.has(j) && t.kind(j) == "import_declaration"@ && j < k < #[trigger] t.after(j)
                ==> #[trigger] t.kind(k) != "import_declaration"@,
    ensures
        imports_in(t, file, module, lo, hi) == in_order(imports_of_nodes(t, file, module), lo, hi),
    decreases t.left(lo), 1nat,
{
    if lo < hi {
        let items = imports_of_nodes(t, file, module);
        imports_in_document_order(t, file, module, lo);
        imports_of_siblings(t, file, module, t.after(lo), hi);
        in_order_split(items, lo, t.after(lo), hi);
    }
}

// ── Native methods ───────────────────────────────────────────────────────────

/// The first `n` names, with `_` between any two.
pub open spec fn joined(names: Seq<Seq<char>>, n: int) -> Seq<char>
    decreases n,
{
    if n <= 0 {
        Seq::empty()
    } else if n == 1 {
        names[0]
    } else {
        joined(names, n - 1) + "_"@ + names[n - 1]
    }
}

/// The name of the function that implements the native method `method` of the
/// class `class`.
pub open spec fn mangled(ns: Seq<Seq<char>>, class: Seq<char>, method: Seq<char>) -> Seq<char> {
    if ns.len() == 0 {
        "Java_"@ + class + "_"@ + method
    } else {
        "Java_"@ + joined(ns, ns.len() as int) + "_"@ + class + "_"@ + method
    }
}

/// The name of the function that implements the native method `method` of the
/// class `class`.
pub fn jni_mangle(namespaces: &[String], class: &str, method: &str) -> (name: String)
    ensures
        name@ == mangled(views(namespaces@), class@, method@),
{
    let mut name = "Java_".to_owned();
    let mut i: usize = 0;
    while i < namespaces.len()
        invariant
            i <= namespaces@.len(),
            name@ == "Java_"@ + joined(views(namespaces@), i as int),
        decreases namespaces@.len() - i,
    {
        if i > 0 {
            name.append("_");
        }
        name.append(namespaces[i].as_str());
        i += 1;
    }
    if namespaces.len() > 0 {
        name.append("_");
    }
    name.append(class);
    name.append("_");
    name.append(method);
    name
}

/// The call that the native method `i` of the class `class` stands for.
pub open spec fn native_of(
    t: Syntax,
    file: Seq<char>,
    ns: Seq<Seq<char>>,
    class: Seq<char>,
    i: int,
) -> Seq<ReferenceView> {
    match t.child(i, "name"@) {
        Some(n) => if t.kind(i) == "method_declaration"@ && modified(t, i, "native"@) {
            seq![reference_at(t, file, n, mangled(ns, class, t.text(n)), RefRole::Call)]
        } else {
            Seq::empty()
        },
        None => Seq::empty(),
    }
}

/// The calls that the native methods among `lo..hi` of the class `class` stand for.
/// Those of an enum stand one level deeper, behind its constants.
pub open spec fn natives_in(
    t: Syntax,
    file: Seq<char>,
    ns: Seq<Seq<char>>,
    class: Seq<char>,
    lo: int,
    hi: int,
) -> Seq<ReferenceView>
    decreases t.left(lo),
{
    if lo >= hi || !t.has(lo) {
        Seq::empty()
    } else {
        (if t.kind(lo) == "enum_body_declarations"@ {
            natives_in(t, file, ns, class, lo + 1, t.after(lo))
        } else {
            native_of(t, file, ns, class, lo)
        }) + natives_in(t, file, ns, class, t.next(lo, hi), hi)
    }
}

/// Adds the calls that the native methods in the body `i` of the class `class`
/// stand for.
fn push_natives(
    tree: &SyntaxTree,
    i: usize,
    file: &str,
    ns: &Vec<String>,
    class: &str,
    out: &mut Vec<Reference>,
)
    requires
        i < tree@.len(),
    ensures
        views(final(out)@) == views(old(out)@) + natives_in(
            tree@,
            file@,
            views(ns@),
            class@,
            i + 1,
            tree@.after(i as int),
        ),
    decreases tree@.left(i as int),
{
    let hi: usize = tree.after(i);
    let mut lo: usize = i + 1;
    while lo < hi
        invariant
            i < lo,
            i < tree@.len(),
            hi == tree@.after(i as int),
            hi <= tree@.len(),
            views(out@) + natives_in(tree@, file@, views(ns@), class@, lo as int, hi as int)
                == views(old(out)@) + natives_in(
                tree@,
                file@,
                views(ns@),
                class@,
                i + 1,
                hi as int,
            ),
        decreases hi - lo,
    {
        if tree.is(lo, "enum_body_declarations") {
            push_natives(tree, lo, file, ns, class, out);
        } else if tree.is(lo, "method_declaration") && has_modifier(tree, lo, "native") {
            if let Some(n) = tree.child(lo, "name") {
                let name = jni_mangle(ns.as_slice(), class, tree.text(n));
                push_ref(out, tree, file, n, name.as_str(), RefRole::Call);
            }
        }
        lo = tree.next(lo, hi);
    }
}

/// The calls that the native methods of the type `i` stand for.
pub open spec fn type_natives(t: Syntax, file: Seq<char>, ns: Seq<Seq<char>>, i: int) -> Seq<
    ReferenceView,
> {
    if t.kind(i) == "class_declaration"@ || t.kind(i) == "interface_declaration"@ || t.kind(i)
        == "enum_declaration"@ || t.kind(i) == "record_declaration"@ {
        match (t.field_text(i, "name"@), t.child(i, "body"@)) {
            (Some(class), Some(body)) => natives_in(t, file, ns, class, body + 1, t.after(body)),
            _ => Seq::empty(),
        }
    } else {
        Seq::empty()
    }
}

/// The calls that the native methods of the types among `lo..hi` stand for.
pub open spec fn all_natives_in(
    t: Syntax,
    file: Seq<char>,
    ns: Seq<Seq<char>>,
    lo: int,
    hi: int,
) -> Seq<ReferenceView>
    decreases hi - lo,
{
    if lo >= hi {
        Seq::empty()
    } else {
        type_natives(t, file, ns, lo) + all_natives_in(t, file, ns, t.next(lo, hi), hi)
    }
}

/// Adds the calls that the native methods of the types under node `i` stand for.
fn collect_jni_natives(
    tree: &SyntaxTree,
    i: usize,
    file: &str,
    ns: &Vec<String>,
    out: &mut Vec<Reference>,
)
    requires
        i < tree@.len(),
    ensures
        views(final(out)@)
            == views(old(out)@)
                + all_natives_in(tree@, file@, views(ns@), i + 1, tree@.after(i as int)),
{
    let hi: usize = tree.after(i);
    let mut lo: usize = i + 1;
    while lo < hi
        invariant
            i < lo,
            i < tree@.len(),
            hi == tree@.after(i as int),
            hi <= tree@.len(),
            views(out@) + all_natives_in(tree@, file@, views(ns@), lo as int, hi as int)
                == views(old(out)@)
                + all_natives_in(tree@, file@, views(ns@), i + 1, hi as int),
        decreases hi - lo,
    {
        if tree.is(lo, "class_declaration") || tree.is(lo, "interface_declaration") || tree.is(
            lo,
            "enum_declaration",
        ) || tree.is(lo, "record_declaration") {
            if let Some(class) = tree.field_text(lo, "name") {
                if let Some(body) = tree.child(lo, "body") {
                    push_natives(tree, body, file, ns, class.as_str(), out);
                }
            }
        }
        lo = tree.next(lo, hi);
    }
}

// ── Type references ──────────────────────────────────────────────────────────

/// The last type name among the nodes `lo..hi`; `found` where there is none.
pub open spec fn last_name_in(t: Syntax, lo: int, hi: int, found: Option<int>) -> Option<int>
    decreases hi - lo,
{
    if lo >= hi {
        found
    } else {
        last_name_in(
            t,
            t.next(lo, hi),
            hi,
            if t.kind(lo) == "type_identifier"@ {
                Some(lo)
            } else {
                found
            },
        )
    }
}

/// The last type name among the children of node `i`.
fn find_last_name(tree: &SyntaxTree, i: usize) -> (name: Option<usize>)
    requires
        i < tree@.len(),
    ensures
        opt_index(name) == last_name_in(tree@, i + 1, tree@.after(i as int), None),
        name matches Some(n) ==> n < tree@.len(),
{
    let mut name: Option<usize> = None;
    let hi: usize = tree.after(i);
    let mut lo: usize = i + 1;
    while lo < hi
        invariant
            i < lo,
            hi == tree@.after(i as int),
            hi <= tree@.len(),
            name matches Some(n) ==> n < tree@.len(),
            last_name_in(tree@, lo as int, hi as int, opt_index(name)) == last_name_in(
                tree@,
                i + 1,
                hi as int,
                None,
            ),
        decreases hi - lo,
    {
        if tree.is(lo, "type_identifier") {
            name = Some(lo);
        }
        lo = tree.next(lo, hi);
    }
    name
}

/// The references to types in the type `i`, which stands in the place `ctx`.
/// Built-in types are not reported; of a qualified name it is the last part.
pub open spec fn leaves_at(t: Syntax, file: Seq<char>, ctx: TypeRefContext, i: int) -> Seq<
    ReferenceView,
>
    decreases t.left(i), 0nat,
{
    let kind = t.kind(i);
    if !t.has(i) {
        Seq::empty()
    } else if kind == "type_identifier"@ {
        seq![type_reference_at(t, file, i, t.text(i), ctx)]
    } else if kind == "generic_type"@ {
        (match t.named_child(i) {
            Some(base) => leaves_at(t, file, ctx, base),
            None => Seq::empty(),
        }) + match t.child_of_kind(i, "type_arguments"@) {
            Some(args) => args_in(t, file, args + 1, t.after(args)),
            None => Seq::empty(),
        }
    } else if kind == "scoped_type_identifier"@ {
        match last_name_in(t, i + 1, t.after(i), None) {
            Some(name) => seq![type_reference_at(t, file, name, t.text(name), ctx)],
            None => Seq::empty(),
        }
    } else if kind == "array_type"@ {
        match t.child(i, "element"@) {
            Some(element) => leaves_at(t, file, ctx, element),
            None => Seq::empty(),
        }
    } else {
        Seq::empty()
    }
}

/// The references to types in the type arguments `lo..hi`. A wildcard has the
/// types of its bounds.
pub open spec fn args_in(t: Syntax, file: Seq<char>, lo: int, hi: int) -> Seq<ReferenceView>
    decreases t.left(lo), 2nat,
{
    if lo >= hi || !t.has(lo) {
        Seq::empty()
    } else {
        (if !t.named(lo) {
            Seq::empty()
        } else if t.kind(lo) == "wildcard"@ {
            leaves_in(t, file, TypeRefContext::GenericArg, lo + 1, t.after(lo))
        } else {
            leaves_at(t, file, TypeRefContext::GenericArg, lo)
        }) + args_in(t, file, t.next(lo, hi), hi)
    }
}

/// The references to types of the named nodes among `lo..hi`.
pub open spec fn leaves_in(
    t: Syntax,
    file: Seq<char>,
    ctx: TypeRefContext,
    lo: int,
    hi: int,
) -> Seq<ReferenceView>
    decreases t.left(lo), 1nat,
{
    if lo >= hi || !t.has(lo) {
        Seq::empty()
    } else {
        (if t.named(lo) {
            leaves_at(t, file, ctx, lo)
        } else {
            Seq::empty()
        }) + leaves_in(t, file, ctx, t.next(lo, hi), hi)
    }
}

/// Adds the references to types of the named children of node `i`.
fn type_leaves(
    tree: &SyntaxTree,
    i: usize,
    file: &str,
    ctx: TypeRefContext,
    out: &mut Vec<Reference>,
)
    requires
        i < tree@.len(),
    ensures
        views(final(out)@) == views(old(out)@) + leaves_in(
            tree@, file@, ctx,
            i + 1,
            tree@.after(i as int),
        ),
    decreases tree@.left(i as int), 0nat,
{
    let hi: usize = tree.after(i);
    let mut lo: usize = i + 1;
    while lo < hi
        invariant
            i < lo,
            i < tree@.len(),
            hi == tree@.after(i as int),
            hi <= tree@.len(),
            views(out@) + leaves_in(tree@, file@, ctx, lo as int, hi as int) == views(old(out)@)
                + leaves_in(tree@, file@, ctx, i + 1, hi as int),
        decreases hi - lo,
    {
        if tree.named(lo) {
            type_leaf(tree, lo, file, ctx, out);
        }
        lo = tree.next(lo, hi);
    }
}

/// Adds the references to types in the type arguments `i`.
fn push_type_args(tree: &SyntaxTree, i: usize, file: &str, out: &mut Vec<Reference>)
    requires
        i < tree@.len(),
    ensures
        views(final(out)@) == views(old(out)@) + args_in(
            tree@,
            file@,
            i + 1,
            tree@.after(i as int),
        ),
    decreases tree@.left(i as int), 0nat,
{
    let hi: usize = tree.after(i);
    let mut lo: usize = i + 1;
    while lo < hi
        invariant
            i < lo,
            i < tree@.len(),
            hi == tree@.after(i as int),
            hi <= tree@.len(),
            views(out@) + args_in(tree@, file@, lo as int, hi as int) == views(old(out)@) + args_in(
                tree@,
                file@,
                i + 1,
                hi as int,
            ),
        decreases hi - lo,
    {
        if tree.named(lo) {
            if tree.is(lo, "wildcard") {
                type_leaves(tree, lo, file, TypeRefContext::GenericArg, out);
            } else {
                type_leaf(tree, lo, file, TypeRefContext::GenericArg, out);
            }
        }
        lo = tree.next(lo, hi);
    }
}

/// Adds the references to types in the type `i`.
fn type_leaf(
    tree: &SyntaxTree,
    i: usize,
    file: &str,
    ctx: TypeRefContext,
    out: &mut Vec<Reference>,
)
    requires
        i < tree@.len(),
    ensures
        views(final(out)@) == views(old(out)@) + leaves_at(tree@, file@, ctx, i as int),
    decreases tree@.left(i as int), 1nat,
{
    if tree.is(i, "type_identifier") {
        push_type_ref(out, tree, file, i, tree.text(i), ctx);
    } else if tree.is(i, "generic_type") {
        if let Some(base) = tree.named_child(i) {
            type_leaf(tree, base, file, ctx, out);
        }
        if let Some(args) = tree.child_of_kind(i, "type_arguments") {
            push_type_args(tree, args, file, out);
        }
    } else if tree.is(i, "scoped_type_identifier") {
        if let Some(name) = find_last_name(tree, i) {
            push_type_ref(out, tree, file, name, tree.text(name), ctx);
        }
    } else if tree.is(i, "array_type") {
        if let Some(element) = tree.child(i, "element") {
            type_leaf(tree, element, file, ctx, out);
        }
    }
}

/// The type of node `i` that is reported, with its place: that of a parameter,
/// the one that a method returns, or that of a field.
pub open spec fn reported_type(t: Syntax, i: int) -> Option<(int, TypeRefContext)> {
    let kind = t.kind(i);
    if kind == "spread_parameter"@ {
        match t.named_child(i) {
            Some(ty) => Some((ty, TypeRefContext::ParameterType)),
            None => None,
        }
    } else {
        match t.child(i, "type"@) {
            Some(ty) => if kind == "formal_parameter"@ {
                Some((ty, TypeRefContext::ParameterType))
            } else if kind == "method_declaration"@ {
                Some((ty, TypeRefContext::ReturnType))
            } else if kind == "field_declaration"@ {
                Some((ty, TypeRefContext::Field))
            } else {
                None
            },
            None => None,
        }
    }
}

/// The references to types of node `i` itself.
pub open spec fn own_type_refs(t: Syntax, file: Seq<char>, i: int) -> Seq<ReferenceView> {
    match reported_type(t, i) {
        Some((ty, ctx)) => leaves_at(t, file, ctx, ty),
        None => Seq::empty(),
    }
}

/// The references to types in the subtree of node `i`.
pub open spec fn type_refs_at(t: Syntax, file: Seq<char>, i: int) -> Seq<ReferenceView>
    decreases t.left(i), 0nat,
{
    if !t.has(i) {
        Seq::empty()
    } else {
        own_type_refs(t, file, i) + type_refs_in(t, file, i + 1, t.after(i))
    }
}

/// The references to types in the subtrees of the nodes `lo..hi`.
pub open spec fn type_refs_in(t: Syntax, file: Seq<char>, lo: int, hi: int) -> Seq<ReferenceView>
    decreases t.left(lo), 1nat,
{
    if lo >= hi || !t.has(lo) {
        Seq::empty()
    } else {
        type_refs_at(t, file, lo) + type_refs_in(t, file, t.next(lo, hi), hi)
    }
}

/// Adds the references to types in the subtree of node `i`.
fn collect_type_references(tree: &SyntaxTree, i: usize, file: &str, out: &mut Vec<Reference>)
    requires
        i < tree@.len(),
    ensures
        views(final(out)@) == views(old(out)@) + type_refs_at(tree@, file@, i as int),
    decreases tree@.left(i as int),
{
    if tree.is(i, "spread_parameter") {
        if let Some(ty) = tree.named_child(i) {
            type_leaf(tree, ty, file, TypeRefContext::ParameterType, out);
        }
    } else if let Some(ty) = tree.child(i, "type") {
        if tree.is(i, "formal_parameter") {
            type_leaf(tree, ty, file, TypeRefContext::ParameterType, out);
        } else if tree.is(i, "method_declaration") {
            type_leaf(tree, ty, file, TypeRefContext::ReturnType, out);
        } else if tree.is(i, "field_declaration") {
            type_leaf(tree, ty, file, TypeRefContext::Field, out);
        }
    }
    let hi: usize = tree.after(i);
    let mut lo: usize = i + 1;
    while lo < hi
        invariant
            i < lo,
            i < tree@.len(),
            hi == tree@.after(i as int),
            hi <= tree@.len(),
            views(out@) + type_refs_in(tree@, file@, lo as int, hi as int) == views(old(out)@)
                + type_refs_at(tree@, file@, i as int),
        decreases hi - lo,
    {
        collect_type_references(tree, lo, file, out);
        lo = tree.next(lo, hi);
    }
}

/// The references to types of node `i` itself, for each `i`.
pub open spec fn type_refs_of_nodes(
    t: Syntax,
    file: Seq<char>,
) -> spec_fn(int) -> Seq<ReferenceView> {
    |j: int| own_type_refs(t, file, j)
}

/// The references to types in a subtree are those of its nodes, in document
/// order: none is missed and none is reported twice.
pub proof fn type_refs_in_document_order(t: Syntax, file: Seq<char>, i: int)
    requires
        t.nested(),
        t.has(i),
    ensures
        type_refs_at(t, file, i) == in_order(type_refs_of_nodes(t, file), i, t.after(i)),
    decreases t.left(i), 0nat,
{
    let items = type_refs_of_nodes(t, file);
    type_refs_of_siblings(t, file, i + 1, t.after(i));
    assert(in_order(items, i, t.after(i)) == items(i) + in_order(items, i + 1, t.after(i)));
    assert(Seq::<ReferenceView>::empty() + items(i) =~= items(i) + Seq::<ReferenceView>::empty());
}

proof fn type_refs_of_siblings(t: Syntax, file: Seq<char>, lo: int, hi: int)
    requires
        t.nested(),
        t.closed_range(lo, hi),
    ensures
        type_refs_in(t, file, lo, hi) == in_order(type_refs_of_nodes(t, file), lo, hi),
    decreases t.left(lo), 1nat,
{
    if lo < hi {
        let items = type_refs_of_nodes(t, file);
        type_refs_in_document_order(t, file, lo);
        type_refs_of_siblings(t, file, t.after(lo), hi);
        in_order_split(items, lo, t.after(lo), hi);
    }
}

// ── Reads and writes ─────────────────────────────────────────────────────────

/// Whether node `i` is a part of the name in a package or import declaration.
pub open spec fn in_declared_name(t: Syntax, i: int) -> bool
    decreases i,
{
    match t.parent(i) {
        Some(p) => if t.kind(p) == "package_declaration"@ || t.kind(p) == "import_declaration"@ {
            true
        } else if (t.kind(p) == "scoped_identifier"@ || t.kind(p) == "scoped_type_identifier"@) && 0
            <= p < i {
            in_declared_name(t, p)
        } else {
            false
        },
        None => false,
    }
}

/// Whether node `i` is a part of the name in a package or import declaration.
fn is_in_declared_name(tree: &SyntaxTree, i: usize) -> (b: bool)
    ensures
        b == in_declared_name(tree@, i as int),
    decreases i,
{
    match tree.parent(i) {
        Some(p) => if tree.is(p, "package_declaration") || tree.is(p, "import_declaration") {
            true
        } else if tree.is(p, "scoped_identifier") || tree.is(p, "scoped_type_identifier") {
            is_in_declared_name(tree, p)
        } else {
            false
        },
        None => false,
    }
}

/// Whether a node of this kind introduces what stands under its field `name`.
pub open spec fn declares_name(kind: Seq<char>) -> bool {
    kind == "class_declaration"@ || kind == "interface_declaration"@
        || kind == "enum_declaration"@ || kind == "record_declaration"@
        || kind == "annotation_type_declaration"@ || kind == "method_declaration"@
        || kind == "constructor_declaration"@ || kind == "compact_constructor_declaration"@
}

/// Whether node `i` introduces what stands under its field `name`.
fn is_named_declaration(tree: &SyntaxTree, i: usize) -> (b: bool)
    ensures
        b == declares_name(tree@.kind(i as int)),
{
    tree.is(i, "class_declaration") || tree.is(i, "interface_declaration")
        || tree.is(i, "enum_declaration") || tree.is(i, "record_declaration")
        || tree.is(i, "annotation_type_declaration") || tree.is(i, "method_declaration")
        || tree.is(i, "constructor_declaration")
        || tree.is(i, "compact_constructor_declaration")
}

/// Whether the identifier `i` stands where it is not read: where it is called,
/// introduced, imported, assigned to, or names a member.
pub open spec fn not_read(t: Syntax, i: int) -> bool {
    match t.parent(i) {
        None => true,
        Some(p) => {
            let kind = t.kind(p);
            if in_declared_name(t, i) {
                true
            } else if kind == "method_invocation"@ || declares_name(kind) || kind
                == "variable_declarator"@ || kind == "formal_parameter"@ || kind
                == "catch_formal_parameter"@ || kind == "enhanced_for_statement"@ {
                t.child(p, "name"@) == Some(i)
            } else if kind == "field_access"@ {
                t.child(p, "field"@) == Some(i)
            } else if kind == "lambda_expression"@ {
                t.child(p, "parameters"@) == Some(i)
            } else if kind == "inferred_parameters"@ {
                true
            } else {
                (kind == "assignment_expression"@ || kind == "operator_assignment"@) && t.child(
                    p,
                    "left"@,
                ) == Some(i)
            }
        },
    }
}

/// Whether the identifier `i` stands where it is not read.
fn is_non_read_position(tree: &SyntaxTree, i: usize) -> (b: bool)
    ensures
        b == not_read(tree@, i as int),
{
    match tree.parent(i) {
        None => true,
        Some(p) => {
            if is_in_declared_name(tree, i) {
                true
            } else if tree.is(p, "method_invocation") || is_named_declaration(tree, p) || tree.is(
                p,
                "variable_declarator",
            ) || tree.is(p, "formal_parameter") || tree.is(p, "catch_formal_parameter") || tree.is(
                p,
                "enhanced_for_statement",
            ) {
                tree.is_child(p, "name", i)
            } else if tree.is(p, "field_access") {
                tree.is_child(p, "field", i)
            } else if tree.is(p, "lambda_expression") {
                tree.is_child(p, "parameters", i)
            } else if tree.is(p, "inferred_parameters") {
                true
            } else {
                (tree.is(p, "assignment_expression") || tree.is(p, "operator_assignment"))
                    && tree.is_child(p, "left", i)
            }
        },
    }
}

/// The read that the identifier `i` is, where it is long enough and stands where
/// it is read.
pub open spec fn read_of(t: Syntax, file: Seq<char>, i: int) -> Seq<ReferenceView> {
    if (t.kind(i) == "identifier"@) && reportable(t.text(i)) && !not_read(t, i) {
        seq![reference_at(t, file, i, t.text(i), RefRole::Read)]
    } else {
        Seq::empty()
    }
}

/// The reads in the subtree of node `i`.
pub open spec fn reads_at(t: Syntax, file: Seq<char>, i: int) -> Seq<ReferenceView>
    decreases t.left(i), 0nat,
{
    if !t.has(i) {
        Seq::empty()
    } else if t.kind(i) == "identifier"@ {
        read_of(t, file, i)
    } else {
        read_of(t, file, i) + reads_in(t, file, i + 1, t.after(i))
    }
}

/// The reads in the subtrees of the nodes `lo..hi`.
pub open spec fn reads_in(t: Syntax, file: Seq<char>, lo: int, hi: int) -> Seq<ReferenceView>
    decreases t.left(lo), 1nat,
{
    if lo >= hi || !t.has(lo) {
        Seq::empty()
    } else {
        reads_at(t, file, lo) + reads_in(t, file, t.next(lo, hi), hi)
    }
}

/// Adds the reads in the subtree of node `i`.
fn collect_read_references(tree: &SyntaxTree, i: usize, file: &str, out: &mut Vec<Reference>)
    requires
        i < tree@.len(),
    ensures
        views(final(out)@) == views(old(out)@) + reads_at(tree@, file@, i as int),
    decreases tree@.left(i as int),
{
    if tree.is(i, "identifier") {
        let name = tree.text(i);
        if is_reportable(name) && !is_non_read_position(tree, i) {
            push_ref(out, tree, file, i, name, RefRole::Read);
        }
    }
    if tree.is(i, "identifier") {
        return ;
    }
    let hi: usize = tree.after(i);
    let mut lo: usize = i + 1;
    while lo < hi
        invariant
            i < lo,
            i < tree@.len(),
            hi == tree@.after(i as int),
            hi <= tree@.len(),
            views(out@) + reads_in(tree@, file@, lo as int, hi as int) == views(old(out)@)
                + reads_at(tree@, file@, i as int),
        decreases hi - lo,
    {
        collect_read_references(tree, lo, file, out);
        lo = tree.next(lo, hi);
    }
}

/// The reads of node `i` itself, for each `i`.
pub open spec fn reads_of_nodes(t: Syntax, file: Seq<char>) -> spec_fn(int) -> Seq<ReferenceView> {
    |j: int| read_of(t, file, j)
}

/// The reads in a subtree are those of its nodes, in document order: none is missed
/// and none is reported twice.
pub proof fn reads_in_document_order(t: Syntax, file: Seq<char>, i: int)
    requires
        t.nested(),
        t.has(i),
        forall|j: int, k: int|
            t.has(j) && t.kind(j) == "identifier"@ && j < k < #[trigger] t.after(j)
                ==> #[trigger] t.kind(k) != "identifier"@,
    ensures
        reads_at(t, file, i) == in_order(reads_of_nodes(t, file), i, t.after(i)),
    decreases t.left(i), 0nat,
{
    let items = reads_of_nodes(t, file);
    if t.kind(i) == "identifier"@ {
        in_order_none(items, i + 1, t.after(i));
    } else {
        reads_of_siblings(t, file, i + 1, t.after(i));
    }
    assert(in_order(items, i, t.after(i)) == items(i) + in_order(items, i + 1, t.after(i)));
    assert(Seq::<ReferenceView>::empty() + items(i) =~= items(i) + Seq::<ReferenceView>::empty());
}

proof fn reads_of_siblings(t: Syntax, file: Seq<char>, lo: int, hi: int)
    requires
        t.nested(),
        t.closed_range(lo, hi),
        forall|j: int, k: int|
            t.has(j) && t.kind(j) == "identifier"@ && j < k < #[trigger] t.after(j)
                ==> #[trigger] t.kind(k) != "identifier"@,
    ensures
        reads_in(t, file, lo, hi) == in_order(reads_of_nodes(t, file), lo, hi),
    decreases t.left(lo), 1nat,
{
    if lo < hi {
        let items = reads_of_nodes(t, file);
        reads_in_document_order(t, file, lo);
        reads_of_siblings(t, file, t.after(lo), hi);
        in_order_split(items, lo, t.after(lo), hi);
    }
}

/// The write of the assignment `i` to an identifier that is long enough.
pub open spec fn write_of(t: Syntax, file: Seq<char>, i: int) -> Seq<ReferenceView> {
    match t.child(i, "left"@) {
        Some(lhs) => if (t.kind(i) == "assignment_expression"@ || t.kind(i) == "operator_assignment"@)
            && t.kind(lhs) == "identifier"@ && reportable(t.text(lhs)) {
            seq![reference_at(t, file, lhs, t.text(lhs), RefRole::Write)]
        } else {
            Seq::empty()
        },
        None => Seq::empty(),
    }
}

/// The writes in the subtree of node `i`.
pub open spec fn writes_at(t: Syntax, file: Seq<char>, i: int) -> Seq<ReferenceView>
    decreases t.left(i), 0nat,
{
    if !t.has(i) {
        Seq::empty()
    } else {
        write_of(t, file, i) + writes_in(t, file, i + 1, t.after(i))
    }
}

/// The writes in the subtrees of the nodes `lo..hi`.
pub open spec fn writes_in(t: Syntax, file: Seq<char>, lo: int, hi: int) -> Seq<ReferenceView>
    decreases t.left(lo), 1nat,
{
    if lo >= hi || !t.has(lo) {
        Seq::empty()
    } else {
        writes_at(t, file, lo) + writes_in(t, file, t.next(lo, hi), hi)
    }
}

/// Adds the writes in the subtree of node `i`.
fn collect_write_references(tree: &SyntaxTree, i: usize, file: &str, out: &mut Vec<Reference>)
    requires
        i < tree@.len(),
    ensures
        views(final(out)@) == views(old(out)@) + writes_at(tree@, file@, i as int),
    decreases tree@.left(i as int),
{
    if tree.is(i, "assignment_expression") || tree.is(i, "operator_assignment") {
        if let Some(lhs) = tree.child(i, "left") {
            let name = tree.text(lhs);
            if tree.is(lhs, "identifier") && is_reportable(name) {
                push_ref(out, tree, file, lhs, name, RefRole::Write);
            }
        }
    }
    let hi: usize = tree.after(i);
    let mut lo: usize = i + 1;
    while lo < hi
        invariant
            i < lo,
            i < tree@.len(),
            hi == tree@.after(i as int),
            hi <= tree@.len(),
            views(out@) + writes_in(tree@, file@, lo as int, hi as int) == views(old(out)@)
                + writes_at(tree@, file@, i as int),
        decreases hi - lo,
    {
        collect_write_references(tree, lo, file, out);
        lo = tree.next(lo, hi);
    }
}

/// The writes of node `i` itself, for each `i`.
pub open spec fn writes_of_nodes(t: Syntax, file: Seq<char>) -> spec_fn(int) -> Seq<ReferenceView> {
    |j: int| write_of(t, file, j)
}

/// The writes in a subtree are those of its nodes, in document order: none is missed
/// and none is reported twice.
pub proof fn writes_in_document_order(t: Syntax, file: Seq<char>, i: int)
    requires
        t.nested(),
        t.has(i),
    ensures
        writes_at(t, file, i) == in_order(writes_of_nodes(t, file), i, t.after(i)),
    decreases t.left(i), 0nat,
{
    let items = writes_of_nodes(t, file);
    writes_of_siblings(t, file, i + 1, t.after(i));
    assert(in_order(items, i, t.after(i)) == items(i) + in_order(items, i + 1, t.after(i)));
    assert(Seq::<ReferenceView>::empty() + items(i) =~= items(i) + Seq::<ReferenceView>::empty());
}

proof fn writes_of_siblings(t: Syntax, file: Seq<char>, lo: int, hi: int)
    requires
        t.nested(),
        t.closed_range(lo, hi),
    ensures
        writes_in(t, file, lo, hi) == in_order(writes_of_nodes(t, file), lo, hi),
    decreases t.left(lo), 1nat,
{
    if lo < hi {
        let items = writes_of_nodes(t, file);
        writes_in_document_order(t, file, lo);
        writes_of_siblings(t, file, t.after(lo), hi);
        in_order_split(items, lo, t.after(lo), hi);
    }
}

// ── Scopes ───────────────────────────────────────────────────────────────────

/// The scopes, with those that node `i` opens under the scope `parent` behind
/// them: a type, a method and a lambda expression each open one, in which what
/// their bodies hold stands; so does any other block.
pub open spec fn scopes_with(t: Syntax, i: int, parent: ScopeId, scopes: Seq<Scope>) -> Seq<Scope>
    decreases t.left(i), 0nat,
{
    if !t.has(i) {
        scopes
    } else if t.kind(i) == "class_declaration"@ || t.kind(i) == "interface_declaration"@
        || t.kind(i) == "enum_declaration"@ || t.kind(i) == "record_declaration"@
        || t.kind(i) == "annotation_type_declaration"@ {
        let opened = scopes.push(
            Scope { parent: Some(parent), span: span_at(t, i), kind: ScopeKind::Type },
        );
        match t.child(i, "body"@) {
            Some(body) => scopes_with_all(
                t,
                body + 1,
                t.after(body),
                scopes.len() as usize,
                opened,
            ),
            None => opened,
        }
    } else if t.kind(i) == "method_declaration"@ || t.kind(i) == "constructor_declaration"@
        || t.kind(i) == "compact_constructor_declaration"@ {
        let opened = scopes.push(
            Scope { parent: Some(parent), span: span_at(t, i), kind: ScopeKind::Function },
        );
        match t.child(i, "body"@) {
            Some(body) => scopes_with_all(
                t,
                body + 1,
                t.after(body),
                scopes.len() as usize,
                opened,
            ),
            None => opened,
        }
    } else if t.kind(i) == "lambda_expression"@ {
        let opened = scopes.push(
            Scope { parent: Some(parent), span: span_at(t, i), kind: ScopeKind::Function },
        );
        match t.child(i, "body"@) {
            Some(body) => if t.kind(body) == "block"@ {
                scopes_with_all(t, body + 1, t.after(body), scopes.len() as usize, opened)
            } else {
                scopes_with(t, body, scopes.len() as usize, opened)
            },
            None => opened,
        }
    } else if t.kind(i) == "block"@ {
        let opened = scopes.push(
            Scope { parent: Some(parent), span: span_at(t, i), kind: ScopeKind::Block },
        );
        scopes_with_all(t, i + 1, t.after(i), scopes.len() as usize, opened)
    } else {
        scopes_with_all(t, i + 1, t.after(i), parent, scopes)
    }
}

/// The scopes, with those that the nodes `lo..hi` open under the scope `parent`
/// behind them.
pub open spec fn scopes_with_all(
    t: Syntax,
    lo: int,
    hi: int,
    parent: ScopeId,
    scopes: Seq<Scope>,
) -> Seq<Scope>
    decreases t.left(lo), 1nat,
{
    if lo >= hi || !t.has(lo) {
        scopes
    } else {
        scopes_with_all(t, t.next(lo, hi), hi, parent, scopes_with(t, lo, parent, scopes))
    }
}

/// The scopes of a Java file.
pub open spec fn scopes_of(t: Syntax, source_len: int) -> Seq<Scope> {
    scopes_with_all(t, 1, t.after(0), 0, seq![module_scope(source_len)])
}

/// The scopes of a Java file. The first is that of the file as a whole.
pub fn collect_scopes(tree: &SyntaxTree, source_len: usize) -> (scopes: Vec<Scope>)
    ensures
        scopes@ == scopes_of(tree@, source_len as int),
        are_file_scopes(scopes@, source_len as int),
        spans_nest(tree@) && span_at(tree@, 0).end <= source_len ==> scopes_nest(scopes@),
{
    let mut scopes: Vec<Scope> = Vec::new();
    push_scope(&mut scopes, None, ByteSpan { start: 0, end: source_len }, ScopeKind::Module);
    assert(scopes@ =~= seq![module_scope(source_len as int)]);
    if tree.len() > 0 {
        scope_all(tree, 0, 0, &mut scopes);
    }
    scopes
}

/// Opens the scopes of the children of node `i` under the scope `parent`.
fn scope_all(tree: &SyntaxTree, i: usize, parent: ScopeId, scopes: &mut Vec<Scope>)
    requires
        i < tree@.len(),
        parent < old(scopes)@.len(),
        is_scope_tree(old(scopes)@),
    ensures
        final(scopes)@ == scopes_with_all(
            tree@,
            i + 1,
            tree@.after(i as int),
            parent,
            old(scopes)@,
        ),
        is_scope_tree(final(scopes)@),
        extends(final(scopes)@, old(scopes)@),
        nests_under(tree@, i as int, parent, old(scopes)@) ==> scopes_nest(final(scopes)@),
    decreases tree@.left(i as int), 0nat,
{
    let hi: usize = tree.after(i);
    let mut lo: usize = i + 1;
    while lo < hi
        invariant
            i < lo,
            i < tree@.len(),
            hi == tree@.after(i as int),
            hi <= tree@.len(),
            parent < old(scopes)@.len(),
            is_scope_tree(scopes@),
            extends(scopes@, old(scopes)@),
            nests_under(tree@, i as int, parent, old(scopes)@) ==> scopes_nest(scopes@),
            scopes_with_all(tree@, lo as int, hi as int, parent, scopes@) == scopes_with_all(
                tree@,
                i + 1,
                hi as int,
                parent,
                old(scopes)@,
            ),
        decreases hi - lo,
    {
        scope_dfs(tree, lo, parent, scopes);
        lo = tree.next(lo, hi);
    }
}

/// Opens the scopes of node `i` under the scope `parent`.
fn scope_dfs(tree: &SyntaxTree, i: usize, parent: ScopeId, scopes: &mut Vec<Scope>)
    requires
        i < tree@.len(),
        parent < old(scopes)@.len(),
        is_scope_tree(old(scopes)@),
    ensures
        final(scopes)@ == scopes_with(tree@, i as int, parent, old(scopes)@),
        is_scope_tree(final(scopes)@),
        extends(final(scopes)@, old(scopes)@),
        nests_under(tree@, i as int, parent, old(scopes)@) ==> scopes_nest(final(scopes)@),
    decreases tree@.left(i as int), 1nat,
{
    if tree.is(i, "class_declaration") || tree.is(i, "interface_declaration")
        || tree.is(i, "enum_declaration") || tree.is(i, "record_declaration")
        || tree.is(i, "annotation_type_declaration") {
        let id: usize = push_scope(scopes, Some(parent), node_span(tree, i), ScopeKind::Type);
        if let Some(body) = tree.child(i, "body") {
            scope_all(tree, body, id, scopes);
        }
    } else if tree.is(i, "method_declaration") || tree.is(i, "constructor_declaration")
        || tree.is(i, "compact_constructor_declaration") {
        let id: usize = push_scope(scopes, Some(parent), node_span(tree, i), ScopeKind::Function);
        if let Some(body) = tree.child(i, "body") {
            scope_all(tree, body, id, scopes);
        }
    } else if tree.is(i, "lambda_expression") {
        let id: usize = push_scope(scopes, Some(parent), node_span(tree, i), ScopeKind::Function);
        if let Some(body) = tree.child(i, "body") {
            if tree.is(body, "block") {
                scope_all(tree, body, id, scopes);
            } else {
                scope_dfs(tree, body, id, scopes);
            }
        }
    } else if tree.is(i, "block") {
        let id: usize = push_scope(scopes, Some(parent), node_span(tree, i), ScopeKind::Block);
        scope_all(tree, i, id, scopes);
    } else {
        scope_all(tree, i, parent, scopes);
    }
}

// ── Bindings ─────────────────────────────────────────────────────────────────

/// The name of the type of node `i`, as it is written, without its arguments and
/// without what it is qualified with.
pub open spec fn written_type(t: Syntax, i: int) -> Option<Seq<char>> {
    match t.child(i, "type"@) {
        Some(ty) => Some(simple_name(t.text(ty), "."@)),
        None => None,
    }
}

/// The name of the type of node `i`, as it is written.
fn read_written_type(tree: &SyntaxTree, i: usize) -> (name: Option<String>)
    requires
        i < tree@.len(),
    ensures
        opt_text(name) == written_type(tree@, i as int),
{
    match tree.child(i, "type") {
        Some(ty) => Some(simple_type_name(tree.text(ty), ".").to_owned()),
        None => None,
    }
}

/// The type of the object that the declarator `d` makes.
pub open spec fn constructed_type(t: Syntax, d: int) -> Option<Seq<char>> {
    match t.child(d, "value"@) {
        Some(value) => if t.kind(value) == "object_creation_expression"@ {
            written_type(t, value)
        } else {
            None
        },
        None => None,
    }
}

/// The type of the object that the declarator `d` makes.
fn read_constructed_type(tree: &SyntaxTree, d: usize) -> (name: Option<String>)
    requires
        d < tree@.len(),
    ensures
        opt_text(name) == constructed_type(tree@, d as int),
{
    match tree.child(d, "value") {
        Some(value) => if tree.is(value, "object_creation_expression") {
            read_written_type(tree, value)
        } else {
            None
        },
        None => None,
    }
}

/// The type of the name that the declarator `d` of the declaration `v`
/// introduces: the one that is written, or, for `var`, that of the object that is
/// made for it. A built-in type or an array has no name here, and nothing is
/// guessed.
pub open spec fn local_type(t: Syntax, v: int, d: int) -> Option<Seq<char>> {
    match t.child(v, "type"@) {
        Some(ty) => if t.kind(ty) == "type_identifier"@ && t.text(ty) == "var"@ {
            constructed_type(t, d)
        } else if t.kind(ty) == "type_identifier"@ || t.kind(ty) == "scoped_type_identifier"@
            || t.kind(ty) == "generic_type"@ {
            Some(simple_name(t.text(ty), "."@))
        } else {
            None
        },
        None => constructed_type(t, d),
    }
}

/// The type of the name that the declarator `d` of the declaration `v`
/// introduces.
fn java_local_type_name(tree: &SyntaxTree, v: usize, d: usize) -> (name: Option<String>)
    requires
        v < tree@.len(),
        d < tree@.len(),
    ensures
        opt_text(name) == local_type(tree@, v as int, d as int),
{
    match tree.child(v, "type") {
        Some(ty) => if tree.is(ty, "type_identifier") && same(tree.text(ty), "var") {
            read_constructed_type(tree, d)
        } else if tree.is(ty, "type_identifier") || tree.is(ty, "scoped_type_identifier")
            || tree.is(ty, "generic_type") {
            Some(simple_type_name(tree.text(ty), ".").to_owned())
        } else {
            None
        },
        None => read_constructed_type(tree, d),
    }
}

/// The name that the declarator `i` of the declaration `owner` introduces, unless
/// it is one of the file as a whole.
pub open spec fn local_at(t: Syntax, scopes: Seq<Scope>, owner: int, i: int) -> Seq<BindingView> {
    match t.child(i, "name"@) {
        Some(n) => if t.in_field(i, "declarator"@) && !at_file_level(scopes, t.start(n)) {
            seq![
                local_binding(
                    scopes,
                    t.text(n),
                    t.start(n),
                    BindingKind::Local,
                    local_type(t, owner, i),
                ),
            ]
        } else {
            Seq::empty()
        },
        None => Seq::empty(),
    }
}

/// The names that the declarators among `lo..hi` of the declaration `owner`
/// introduce.
pub open spec fn locals_in(
    t: Syntax,
    scopes: Seq<Scope>,
    owner: int,
    lo: int,
    hi: int,
) -> Seq<BindingView>
    decreases hi - lo,
{
    if lo >= hi {
        Seq::empty()
    } else {
        local_at(t, scopes, owner, lo) + locals_in(t, scopes, owner, t.next(lo, hi), hi)
    }
}

/// Adds the names that the declarators under node `i` of the declaration `owner`
/// introduce.
fn push_locals(
    tree: &SyntaxTree,
    i: usize,
    scopes: &Vec<Scope>,
    owner: usize,
    out: &mut Vec<Binding>,
)
    requires
        i < tree@.len(),
        owner < tree@.len(),
    ensures
        views(final(out)@)
            == views(old(out)@)
                + locals_in(tree@, scopes@, owner as int, i + 1, tree@.after(i as int)),
{
    let hi: usize = tree.after(i);
    let mut lo: usize = i + 1;
    while lo < hi
        invariant
            i < lo,
            i < tree@.len(),
            owner < tree@.len(),
            hi == tree@.after(i as int),
            hi <= tree@.len(),
            views(out@) + locals_in(tree@, scopes@, owner as int, lo as int, hi as int)
                == views(old(out)@)
                + locals_in(tree@, scopes@, owner as int, i + 1, hi as int),
        decreases hi - lo,
    {
        if tree.in_field(lo, "declarator") {
            if let Some(n) = tree.child(lo, "name") {
                let intro: usize = tree.start(n);
                if !is_file_level(intro, scopes) {
                    let declared_type = java_local_type_name(tree, owner, lo);
                    push_typed_binding(
                        out,
                        tree.text(n).to_owned(),
                        intro,
                        BindingKind::Local,
                        scopes,
                        declared_type,
                    );
                }
            }
        }
        lo = tree.next(lo, hi);
    }
}

/// The name of a parameter that stands at node `n`.
pub open spec fn plain_param(t: Syntax, scopes: Seq<Scope>, n: int) -> BindingView {
    local_binding(scopes, t.text(n), t.start(n), BindingKind::Param, None)
}

/// Adds the name of a parameter that stands at node `n`.
fn push_plain_param(tree: &SyntaxTree, n: usize, scopes: &Vec<Scope>, out: &mut Vec<Binding>)
    ensures
        views(final(out)@) == views(old(out)@) + seq![plain_param(tree@, scopes@, n as int)],
{
    push_binding(out, tree.text(n).to_owned(), tree.start(n), BindingKind::Param, scopes);
}

/// The names among the parts `lo..hi` of a parameter that takes many values.
pub open spec fn spread_names_in(
    t: Syntax,
    scopes: Seq<Scope>,
    lo: int,
    hi: int,
) -> Seq<BindingView>
    decreases hi - lo,
{
    if lo >= hi {
        Seq::empty()
    } else {
        (match t.child(lo, "name"@) {
            Some(n) => if t.named(lo) && t.kind(lo) == "variable_declarator"@ {
                seq![plain_param(t, scopes, n)]
            } else {
                Seq::empty()
            },
            None => Seq::empty(),
        }) + spread_names_in(t, scopes, t.next(lo, hi), hi)
    }
}

/// Adds the names in the parameter `i` that takes many values.
fn push_spread_names(tree: &SyntaxTree, i: usize, scopes: &Vec<Scope>, out: &mut Vec<Binding>)
    requires
        i < tree@.len(),
    ensures
        views(final(out)@)
            == views(old(out)@) + spread_names_in(tree@, scopes@, i + 1, tree@.after(i as int)),
{
    let hi: usize = tree.after(i);
    let mut lo: usize = i + 1;
    while lo < hi
        invariant
            i < lo,
            i < tree@.len(),
            hi == tree@.after(i as int),
            hi <= tree@.len(),
            views(out@) + spread_names_in(tree@, scopes@, lo as int, hi as int) == views(old(out)@)
                + spread_names_in(tree@, scopes@, i + 1, hi as int),
        decreases hi - lo,
    {
        if tree.named(lo) && tree.is(lo, "variable_declarator") {
            if let Some(n) = tree.child(lo, "name") {
                push_plain_param(tree, n, scopes, out);
            }
        }
        lo = tree.next(lo, hi);
    }
}

/// The names that the parameter `i` introduces.
pub open spec fn param_at(t: Syntax, scopes: Seq<Scope>, i: int) -> Seq<BindingView> {
    if !t.named(i) {
        Seq::empty()
    } else if t.kind(i) == "formal_parameter"@ {
        match t.child(i, "name"@) {
            Some(n) => seq![
                local_binding(
                    scopes,
                    t.text(n),
                    t.start(n),
                    BindingKind::Param,
                    written_type(t, i),
                ),
            ],
            None => Seq::empty(),
        }
    } else if t.kind(i) == "spread_parameter"@ {
        spread_names_in(t, scopes, i + 1, t.after(i))
    } else {
        Seq::empty()
    }
}

/// The names that the parameters among `lo..hi` introduce.
pub open spec fn params_in(t: Syntax, scopes: Seq<Scope>, lo: int, hi: int) -> Seq<BindingView>
    decreases hi - lo,
{
    if lo >= hi {
        Seq::empty()
    } else {
        param_at(t, scopes, lo) + params_in(t, scopes, t.next(lo, hi), hi)
    }
}

/// Adds the names that the parameters in the list `i` introduce.
fn collect_params(tree: &SyntaxTree, i: usize, scopes: &Vec<Scope>, out: &mut Vec<Binding>)
    requires
        i < tree@.len(),
    ensures
        views(final(out)@)
            == views(old(out)@) + params_in(tree@, scopes@, i + 1, tree@.after(i as int)),
{
    let hi: usize = tree.after(i);
    let mut lo: usize = i + 1;
    while lo < hi
        invariant
            i < lo,
            i < tree@.len(),
            hi == tree@.after(i as int),
            hi <= tree@.len(),
            views(out@) + params_in(tree@, scopes@, lo as int, hi as int) == views(old(out)@)
                + params_in(tree@, scopes@, i + 1, hi as int),
        decreases hi - lo,
    {
        if tree.named(lo) {
            if tree.is(lo, "formal_parameter") {
                if let Some(n) = tree.child(lo, "name") {
                    let declared_type = read_written_type(tree, lo);
                    push_typed_binding(
                        out,
                        tree.text(n).to_owned(),
                        tree.start(n),
                        BindingKind::Param,
                        scopes,
                        declared_type,
                    );
                }
            } else if tree.is(lo, "spread_parameter") {
                push_spread_names(tree, lo, scopes, out);
            }
        }
        lo = tree.next(lo, hi);
    }
}

/// The names that the parameters without types among `lo..hi` introduce.
pub open spec fn inferred_in(t: Syntax, scopes: Seq<Scope>, lo: int, hi: int) -> Seq<BindingView>
    decreases hi - lo,
{
    if lo >= hi {
        Seq::empty()
    } else {
        (if t.named(lo) && t.kind(lo) == "identifier"@ {
            seq![plain_param(t, scopes, lo)]
        } else {
            Seq::empty()
        }) + inferred_in(t, scopes, t.next(lo, hi), hi)
    }
}

/// Adds the names that the parameters without types in the list `i` introduce.
fn push_inferred(tree: &SyntaxTree, i: usize, scopes: &Vec<Scope>, out: &mut Vec<Binding>)
    requires
        i < tree@.len(),
    ensures
        views(final(out)@)
            == views(old(out)@) + inferred_in(tree@, scopes@, i + 1, tree@.after(i as int)),
{
    let hi: usize = tree.after(i);
    let mut lo: usize = i + 1;
    while lo < hi
        invariant
            i < lo,
            i < tree@.len(),
            hi == tree@.after(i as int),
            hi <= tree@.len(),
            views(out@) + inferred_in(tree@, scopes@, lo as int, hi as int) == views(old(out)@)
                + inferred_in(tree@, scopes@, i + 1, hi as int),
        decreases hi - lo,
    {
        if tree.named(lo) && tree.is(lo, "identifier") {
            push_plain_param(tree, lo, scopes, out);
        }
        lo = tree.next(lo, hi);
    }
}

/// The names that the parameters `p` of a lambda expression introduce: a list with
/// types, a list without, or one name.
pub open spec fn lambda_params(t: Syntax, scopes: Seq<Scope>, p: int) -> Seq<BindingView> {
    if t.kind(p) == "formal_parameters"@ {
        params_in(t, scopes, p + 1, t.after(p))
    } else if t.kind(p) == "inferred_parameters"@ {
        inferred_in(t, scopes, p + 1, t.after(p))
    } else if t.kind(p) == "identifier"@ {
        seq![plain_param(t, scopes, p)]
    } else {
        Seq::empty()
    }
}

/// The names that node `i` itself introduces: the parameters of a method or a
/// lambda expression, the variables of a declaration, that of a loop and that of
/// a handler.
pub open spec fn introduced(t: Syntax, scopes: Seq<Scope>, i: int) -> Seq<BindingView> {
    let kind = t.kind(i);
    if kind == "method_declaration"@ || kind == "constructor_declaration"@ || kind
        == "compact_constructor_declaration"@ {
        match t.child(i, "parameters"@) {
            Some(params) => params_in(t, scopes, params + 1, t.after(params)),
            None => Seq::empty(),
        }
    } else if kind == "lambda_expression"@ {
        match t.child(i, "parameters"@) {
            Some(params) => lambda_params(t, scopes, params),
            None => Seq::empty(),
        }
    } else if kind == "local_variable_declaration"@ {
        locals_in(t, scopes, i, i + 1, t.after(i))
    } else if kind == "enhanced_for_statement"@ {
        match t.child(i, "name"@) {
            Some(n) => if at_file_level(scopes, t.start(n)) {
                Seq::empty()
            } else {
                seq![local_binding(scopes, t.text(n), t.start(n), BindingKind::Local, None)]
            },
            None => Seq::empty(),
        }
    } else if kind == "catch_formal_parameter"@ {
        match t.child(i, "name"@) {
            Some(n) => seq![plain_param(t, scopes, n)],
            None => Seq::empty(),
        }
    } else {
        Seq::empty()
    }
}

/// Adds the names that node `i` itself introduces.
fn push_introduced(tree: &SyntaxTree, i: usize, scopes: &Vec<Scope>, out: &mut Vec<Binding>)
    requires
        i < tree@.len(),
    ensures
        views(final(out)@) == views(old(out)@) + introduced(tree@, scopes@, i as int),
{
    if tree.is(i, "method_declaration") || tree.is(i, "constructor_declaration") || tree.is(
        i,
        "compact_constructor_declaration",
    ) {
        if let Some(params) = tree.child(i, "parameters") {
            collect_params(tree, params, scopes, out);
        }
    } else if tree.is(i, "lambda_expression") {
        if let Some(params) = tree.child(i, "parameters") {
            if tree.is(params, "formal_parameters") {
                collect_params(tree, params, scopes, out);
            } else if tree.is(params, "inferred_parameters") {
                push_inferred(tree, params, scopes, out);
            } else if tree.is(params, "identifier") {
                push_plain_param(tree, params, scopes, out);
            }
        }
    } else if tree.is(i, "local_variable_declaration") {
        push_locals(tree, i, scopes, i, out);
    } else if tree.is(i, "enhanced_for_statement") {
        if let Some(n) = tree.child(i, "name") {
            let intro: usize = tree.start(n);
            if !is_file_level(intro, scopes) {
                push_binding(out, tree.text(n).to_owned(), intro, BindingKind::Local, scopes);
            }
        }
    } else if tree.is(i, "catch_formal_parameter") {
        if let Some(n) = tree.child(i, "name") {
            push_plain_param(tree, n, scopes, out);
        }
    }
}

/// The names that are introduced in the subtree of node `i`.
pub open spec fn bindings_at(t: Syntax, scopes: Seq<Scope>, i: int) -> Seq<BindingView>
    decreases t.left(i), 0nat,
{
    if !t.has(i) {
        Seq::empty()
    } else {
        introduced(t, scopes, i) + bindings_in(t, scopes, i + 1, t.after(i))
    }
}

/// The names that are introduced in the subtrees of the nodes `lo..hi`.
pub open spec fn bindings_in(t: Syntax, scopes: Seq<Scope>, lo: int, hi: int) -> Seq<BindingView>
    decreases t.left(lo), 1nat,
{
    if lo >= hi || !t.has(lo) {
        Seq::empty()
    } else {
        bindings_at(t, scopes, lo) + bindings_in(t, scopes, t.next(lo, hi), hi)
    }
}

/// Adds the names that are introduced in the subtree of node `i`.
fn collect_bindings_dfs(tree: &SyntaxTree, i: usize, scopes: &Vec<Scope>, out: &mut Vec<Binding>)
    requires
        i < tree@.len(),
    ensures
        views(final(out)@) == views(old(out)@) + bindings_at(tree@, scopes@, i as int),
    decreases tree@.left(i as int),
{
    push_introduced(tree, i, scopes, out);
    let hi: usize = tree.after(i);
    let mut lo: usize = i + 1;
    while lo < hi
        invariant
            i < lo,
            i < tree@.len(),
            hi == tree@.after(i as int),
            hi <= tree@.len(),
            views(out@) + bindings_in(tree@, scopes@, lo as int, hi as int) == views(old(out)@)
                + bindings_at(tree@, scopes@, i as int),
        decreases hi - lo,
    {
        collect_bindings_dfs(tree, lo, scopes, out);
        lo = tree.next(lo, hi);
    }
}

/// The names that are introduced of node `i` itself, for each `i`.
pub open spec fn bindings_of_nodes(
    t: Syntax,
    scopes: Seq<Scope>,
) -> spec_fn(int) -> Seq<BindingView> {
    |j: int| introduced(t, scopes, j)
}

/// The names that are introduced in a subtree are those of its nodes, in
/// document order: none is missed and none is reported twice.
pub proof fn bindings_in_document_order(t: Syntax, scopes: Seq<Scope>, i: int)
    requires
        t.nested(),
        t.has(i),
    ensures
        bindings_at(t, scopes, i) == in_order(bindings_of_nodes(t, scopes), i, t.after(i)),
    decreases t.left(i), 0nat,
{
    let items = bindings_of_nodes(t, scopes);
    bindings_of_siblings(t, scopes, i + 1, t.after(i));
    assert(in_order(items, i, t.after(i)) == items(i) + in_order(items, i + 1, t.after(i)));
    assert(Seq::<BindingView>::empty() + items(i) =~= items(i) + Seq::<BindingView>::empty());
}

proof fn bindings_of_siblings(t: Syntax, scopes: Seq<Scope>, lo: int, hi: int)
    requires
        t.nested(),
        t.closed_range(lo, hi),
    ensures
        bindings_in(t, scopes, lo, hi) == in_order(bindings_of_nodes(t, scopes), lo, hi),
    decreases t.left(lo), 1nat,
{
    if lo < hi {
        let items = bindings_of_nodes(t, scopes);
        bindings_in_document_order(t, scopes, lo);
        bindings_of_siblings(t, scopes, t.after(lo), hi);
        in_order_split(items, lo, t.after(lo), hi);
    }
}

/// The names that are introduced in a Java file below the file as a whole.
fn collect_bindings(tree: &SyntaxTree, scopes: &Vec<Scope>) -> (out: Vec<Binding>)
    ensures
        views(out@) == bindings_at(tree@, scopes@, 0),
{
    let mut out: Vec<Binding> = Vec::new();
    proof {
        views_empty::<Binding>();
    }
    if tree.len() > 0 {
        collect_bindings_dfs(tree, 0, scopes, &mut out);
    }
    out
}

// ── Facts ────────────────────────────────────────────────────────────────────

/// The calls: names of methods that are called, and types of objects that are
/// made.
pub const CALL_QUERY: &'static str = r#"
[
  (method_invocation name: (identifier) @callee)
  (object_creation_expression type: (type_identifier) @callee)
]
"#;

/// The calls of methods of `this`. They are among those of [`CALL_QUERY`], so a
/// query of its own keeps each call from being reported twice.
pub const SELF_CALL_QUERY: &'static str = r#"
(method_invocation
  object: (this)
  name: (identifier) @callee)
"#;

/// The calls of methods of what a plain name stands for.
pub const RECEIVER_CALL_QUERY: &'static str = r#"
(method_invocation
  object: (identifier) @receiver
  name: (identifier) @callee)
"#;

/// The references of a Java file, without their scopes.
pub open spec fn references_of(
    t: Syntax,
    file: Seq<char>,
    module: Seq<char>,
    found: Seq<Seq<CaptureView>>,
    on_self: Seq<Seq<CaptureView>>,
    on_receiver: Seq<Seq<CaptureView>>,
) -> Seq<ReferenceView> {
    calls_qualified(t.source, file, found, on_self, on_receiver) + inherits_at(t, file, 0)
        + imports_at(t, file, module, 0) + all_natives_in(t, file, package_parts(t), 1, t.after(0))
        + type_refs_at(t, file, 0) + reads_at(t, file, 0) + writes_at(t, file, 0)
}

/// The facts of a Java file with the nodes `t`, where `found` and `on_self` and
/// `on_receiver` are the matches of the queries on calls.
pub open spec fn facts_of(
    t: Syntax,
    file: Seq<char>,
    found: Seq<Seq<CaptureView>>,
    on_self: Seq<Seq<CaptureView>>,
    on_receiver: Seq<Seq<CaptureView>>,
) -> FileFactsView {
    let source_len = byte_count(t.source) as int;
    let ns = namespaces_of(t, file);
    let defs = symbols_in(
        Ctx { tree: t, file, lang: Language::Java },
        namespace_steps(ns),
        1,
        t.after(0),
    );
    let module = module_view(Language::Java, ns, file, source_len);
    let scopes = scopes_of(t, source_len);
    let references = all_scoped(
        scopes,
        references_of(t, file, scip_text(module.id), found, on_self, on_receiver),
    );
    FileFactsView {
        file,
        lang: Language::Java.tag(),
        symbols: defs + seq![module],
        references,
        scopes,
        bindings: bindings_at(t, scopes, 0) + definitions_bound(defs) + imports_bound(
            scopes,
            references,
        ),
        ffi_exports: Seq::empty(),
    }
}

/// The facts of a Java file, from its nodes and the matches of the queries on
/// calls.
pub fn file_facts(
    tree: &SyntaxTree,
    file: &str,
    found: &Vec<Match>,
    on_self: &Vec<Match>,
    on_receiver: &Vec<Match>,
) -> (facts: FileFacts)
    ensures
        facts@ == facts_of(tree@, file@, views(found@), views(on_self@), views(on_receiver@)),
        coherent(facts@, byte_count(tree@.source) as int),
        imports_are_bound(facts@),
{
    let source_len: usize = byte_length(tree.source());
    let namespaces = java_namespaces(tree, file);
    let ctx = ExtractCtx { tree, file, lang: Language::Java };
    let defs = collect_symbols(&ctx, &namespaces);
    let def_bindings = definition_bindings(&defs);
    let ghost own = views(defs@);
    let mut symbols = defs;
    let module = module_symbol(Language::Java, namespaces.as_slice(), file, source_len);
    let module_id = module.id.to_scip_string();
    put(&mut symbols, module);
    let mut references = collect_call_references(tree.source(), file, found);
    mark_self_receiver_calls(&mut references, on_self);
    mark_receiver_qualifier_calls(&mut references, tree.source(), on_receiver);
    if tree.len() > 0 {
        collect_inheritance(tree, 0, file, &mut references);
        collect_imports(tree, 0, file, module_id.as_str(), &mut references);
        collect_jni_natives(tree, 0, file, &java_package(tree), &mut references);
        collect_type_references(tree, 0, file, &mut references);
        collect_read_references(tree, 0, file, &mut references);
        collect_write_references(tree, 0, file, &mut references);
    }
    assert(views(references@)
        =~= references_of(tree@, file@, module_id@, views(found@), views(on_self@), views(on_receiver@)));
    let scopes = collect_scopes(tree, source_len);
    let ghost plain = views(references@);
    attach_reference_scopes(&mut references, &scopes);
    let mut bindings = collect_bindings(tree, &scopes);
    let ghost locals = views(bindings@);
    put_all(&mut bindings, def_bindings);
    put_all(&mut bindings, import_bindings(&references, &scopes));
    proof {
        views_empty::<FfiExport>();
    }
    let facts = FileFacts {
        file: file.to_owned(),
        lang: Language::Java.as_str().to_owned(),
        symbols,
        references,
        scopes,
        bindings,
        ffi_exports: Vec::new(),
    };
    proof {
        let imports = imports_bound(facts@.scopes, facts@.references);
        facts_are_coherent(facts@, own, plain, locals, imports, source_len as int);
        facts_bind_imports(facts@, locals + definitions_bound(own));
    }
    facts
}

/// Reads Java files.
pub struct JavaExtractor;

impl Extractor for JavaExtractor {
    open spec fn language(&self) -> Language {
        Language::Java
    }

    open spec fn facts(&self, tree: tree_sitter::Tree, file: Seq<char>) -> Result<
        FileFactsView,
        ErrorView,
    > {
        match (
            answer_to(tree, CALL_QUERY@),
            answer_to(tree, SELF_CALL_QUERY@),
            answer_to(tree, RECEIVER_CALL_QUERY@),
        ) {
            (Some(found), Some(on_self), Some(on_receiver)) => Ok(
                facts_of(syntax_of(tree), file, found, on_self, on_receiver),
            ),
            _ => Err(ErrorView::Query { path: file }),
        }
    }

    fn lang(&self) -> (lang: Language) {
        Language::Java
    }

    fn extract_facts(&self, source: &str, file: &str) -> (result: Result<
        FileFacts,
        CodegraphError,
    >) {
        let parsed = match parse(Language::Java, source) {
            Some(parsed) => parsed,
            None => {
                return Err(CodegraphError::Parse { path: file.to_owned() });
            },
        };
        if let Some(found) = parsed.query(CALL_QUERY) {
            if let Some(on_self) = parsed.query(SELF_CALL_QUERY) {
                if let Some(on_receiver) = parsed.query(RECEIVER_CALL_QUERY) {
                    return Ok(file_facts(parsed.syntax(), file, &found, &on_self, &on_receiver));
                }
            }
        }
        Err(CodegraphError::Query { path: file.to_owned() })
    }
}

} // verus!
