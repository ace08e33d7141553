//! The facts of HCL files.

use crate::error::{CodegraphError, ErrorView};
use crate::graph::types::{
    ByteSpan, FfiExport, FileFacts, FileFactsView, RefRole, Reference, ReferenceView, Scope,
    ScopeKind, Symbol, SymbolKind, SymbolView, Visibility,
};
use crate::items::{in_order, in_order_split, put, views, views_empty};
use crate::lang::Language;
use crate::parse::{parse, syntax_of};
use crate::symbol::{namespace_steps, Descriptor, DescriptorView};
use crate::syntax::{group_child_bounds, Syntax, SyntaxTree};
use crate::text::{byte_count, byte_length, is_empty, same, unquote, unquoted};
use vstd::prelude::*;

use super::{
    all_scoped, are_file_scopes, attach_reference_scopes, bare_reference, coherent, define,
    defined_at, definition_bindings, definitions_bound, facts_are_coherent, module_scope,
    module_symbol, module_view, namespace_descriptors, node_occurrence, push_scope, reference_at,
    Ctx, ExtractCtx, Extractor,
};

verus! {

broadcast use group_child_bounds;

// ── Scopes ───────────────────────────────────────────────────────────────────

/// The scopes of an HCL file: that of the file as a whole.
pub fn collect_scopes(source_len: usize) -> (scopes: Vec<Scope>)
    ensures
        scopes@ == seq![module_scope(source_len as int)],
        are_file_scopes(scopes@, source_len as int),
{
    let mut scopes: Vec<Scope> = Vec::new();
    push_scope(&mut scopes, None, ByteSpan { start: 0, end: source_len }, ScopeKind::Module);
    assert(scopes@ =~= seq![module_scope(source_len as int)]);
    scopes
}

// ── Definitions ──────────────────────────────────────────────────────────────

/// Whether the labels of a block end at node `i`.
pub open spec fn ends_labels(t: Syntax, i: int) -> bool {
    t.kind(i) == "block_start"@ || t.kind(i) == "body"@ || t.kind(i) == "block_end"@ || t.kind(i)
        == "object_start"@ || t.kind(i) == "object_end"@
}

/// The labels among the nodes `lo..hi` of a block: strings and names, up to
/// where the labels end.
pub open spec fn labels_in(t: Syntax, lo: int, hi: int) -> Seq<Seq<char>>
    decreases hi - lo,
{
    if lo >= hi {
        Seq::empty()
    } else if !t.named(lo) {
        labels_in(t, t.next(lo, hi), hi)
    } else if t.kind(lo) == "string_lit"@ {
        seq![unquoted(t.text(lo))] + labels_in(t, t.next(lo, hi), hi)
    } else if t.kind(lo) == "identifier"@ {
        seq![t.text(lo)] + labels_in(t, t.next(lo, hi), hi)
    } else if ends_labels(t, lo) {
        Seq::empty()
    } else {
        labels_in(t, t.next(lo, hi), hi)
    }
}

/// The type and the labels of the block `i`: the name that it starts with, and
/// the labels behind it.
pub open spec fn block_head(t: Syntax, i: int) -> Option<(Seq<char>, Seq<Seq<char>>)> {
    match t.named_child(i) {
        Some(first) => if t.kind(first) == "identifier"@ {
            Some((t.text(first), labels_in(t, t.next(first, t.after(i)), t.after(i))))
        } else {
            None
        },
        None => None,
    }
}

/// A type and labels, by their contents.
pub open spec fn opt_head(head: Option<(String, Vec<String>)>) -> Option<
    (Seq<char>, Seq<Seq<char>>),
> {
    match head {
        Some(pair) => Some((pair.0@, views(pair.1@))),
        None => None,
    }
}

/// The type and the labels of the block `i`.
fn block_type_and_labels(tree: &SyntaxTree, i: usize) -> (head: Option<(String, Vec<String>)>)
    requires
        i < tree@.len(),
    ensures
        opt_head(head) == block_head(tree@, i as int),
{
    let first: usize = match tree.named_child(i) {
        Some(first) => first,
        None => {
            return None;
        },
    };
    if !tree.is(first, "identifier") {
        return None;
    }
    let block_type = tree.text(first).to_owned();
    let mut labels: Vec<String> = Vec::new();
    proof {
        views_empty::<String>();
    }
    let hi: usize = tree.after(i);
    let mut lo: usize = tree.next(first, hi);
    let mut done: bool = false;
    while lo < hi && !done
        invariant
            hi == tree@.after(i as int),
            hi <= tree@.len(),
            first < hi,
            views(labels@) + (if done {
                Seq::empty()
            } else {
                labels_in(tree@, lo as int, hi as int)
            }) == labels_in(tree@, tree@.next(first as int, hi as int), hi as int),
        decreases hi - lo,
    {
        if tree.named(lo) {
            if tree.is(lo, "string_lit") {
                put(&mut labels, unquote(tree.text(lo)).to_owned());
            } else if tree.is(lo, "identifier") {
                put(&mut labels, tree.text(lo).to_owned());
            } else if tree.is(lo, "block_start") || tree.is(lo, "body") || tree.is(lo, "block_end")
                || tree.is(lo, "object_start") || tree.is(lo, "object_end") {
                done = true;
            }
        }
        lo = tree.next(lo, hi);
    }
    assert(views(labels@) + Seq::<Seq<char>>::empty() =~= views(labels@));
    Some((block_type, labels))
}

/// The symbol of a block with the name `name`: the steps to it are `namespaces` and
/// that name.
pub open spec fn block_symbol(
    c: Ctx,
    i: int,
    kind: SymbolKind,
    namespaces: Seq<Seq<char>>,
    name: Seq<char>,
) -> SymbolView {
    defined_at(
        c,
        namespace_steps(namespaces),
        i,
        name,
        kind,
        Visibility::Public,
        DescriptorView::Type(name),
        "{"@,
    )
}

/// What the block `i` defines: a resource, a source of data or a module. One
/// with too few labels defines nothing, nor does a block of another type.
pub open spec fn symbol_of(c: Ctx, i: int) -> Option<SymbolView> {
    match block_head(c.tree, i) {
        Some((block_type, labels)) => if block_type == "resource"@ {
            if labels.len() >= 2 {
                Some(block_symbol(c, i, SymbolKind::Resource, seq![labels[0]], labels[1]))
            } else {
                None
            }
        } else if block_type == "data"@ {
            if labels.len() >= 2 {
                Some(block_symbol(c, i, SymbolKind::Resource, seq!["data"@, labels[0]], labels[1]))
            } else {
                None
            }
        } else if block_type == "module"@ && labels.len() >= 1 {
            Some(block_symbol(c, i, SymbolKind::Module, seq!["module"@], labels[0]))
        } else {
            None
        },
        None => None,
    }
}

/// A symbol, by its contents.
pub open spec fn opt_symbol(symbol: Option<Symbol>) -> Option<SymbolView> {
    match symbol {
        Some(s) => Some(s@),
        None => None,
    }
}

/// The symbol of a block.
fn define_block(
    ctx: &ExtractCtx<'_>,
    i: usize,
    kind: SymbolKind,
    namespaces: &Vec<String>,
    name: &str,
) -> (symbol: Symbol)
    ensures
        symbol@ == block_symbol(ctx@, i as int, kind, views(namespaces@), name@),
{
    let prefix = namespace_descriptors(namespaces);
    let leaf = Descriptor::Type(name.to_owned());
    define(ctx, &prefix, i, name.to_owned(), kind, Visibility::Public, leaf, "{")
}

/// What the block `i` defines.
fn extract_block_symbol(ctx: &ExtractCtx<'_>, i: usize) -> (symbol: Option<Symbol>)
    requires
        i < ctx.tree@.len(),
    ensures
        opt_symbol(symbol) == symbol_of(ctx@, i as int),
{
    let (block_type, labels) = match block_type_and_labels(ctx.tree, i) {
        Some(head) => head,
        None => {
            return None;
        },
    };
    let mut namespaces: Vec<String> = Vec::new();
    proof {
        views_empty::<String>();
    }
    if same(block_type.as_str(), "resource") {
        if labels.len() < 2 {
            return None;
        }
        put(&mut namespaces, labels[0].as_str().to_owned());
        assert(views(namespaces@) =~= seq![labels@[0]@]);
        Some(define_block(ctx, i, SymbolKind::Resource, &namespaces, labels[1].as_str()))
    } else if same(block_type.as_str(), "data") {
        if labels.len() < 2 {
            return None;
        }
        put(&mut namespaces, "data".to_owned());
        put(&mut namespaces, labels[0].as_str().to_owned());
        assert(views(namespaces@) =~= seq!["data"@, labels@[0]@]);
        Some(define_block(ctx, i, SymbolKind::Resource, &namespaces, labels[1].as_str()))
    } else if same(block_type.as_str(), "module") {
        if labels.len() < 1 {
            return None;
        }
        put(&mut namespaces, "module".to_owned());
        assert(views(namespaces@) =~= seq!["module"@]);
        Some(define_block(ctx, i, SymbolKind::Module, &namespaces, labels[0].as_str()))
    } else {
        None
    }
}

/// What node `i` in the body of a file defines.
pub open spec fn symbols_at(c: Ctx, i: int) -> Seq<SymbolView> {
    if c.tree.named(i) && c.tree.kind(i) == "block"@ {
        match symbol_of(c, i) {
            Some(symbol) => seq![symbol],
            None => Seq::empty(),
        }
    } else {
        Seq::empty()
    }
}

/// What the nodes `lo..hi` in the body of a file define.
pub open spec fn symbols_in(c: Ctx, lo: int, hi: int) -> Seq<SymbolView>
    decreases hi - lo,
{
    if lo >= hi {
        Seq::empty()
    } else {
        symbols_at(c, lo) + symbols_in(c, c.tree.next(lo, hi), hi)
    }
}

/// Adds what the blocks in the body `i` define.
fn collect_blocks(ctx: &ExtractCtx<'_>, i: usize, out: &mut Vec<Symbol>)
    requires
        i < ctx.tree@.len(),
    ensures
        views(final(out)@) == views(old(out)@) + symbols_in(ctx@, i + 1, ctx.tree@.after(i as int)),
{
    let tree = ctx.tree;
    let hi: usize = tree.after(i);
    let mut lo: usize = i + 1;
    while lo < hi
        invariant
            i < lo,
            i < tree@.len(),
            tree == ctx.tree,
            hi == tree@.after(i as int),
            hi <= tree@.len(),
            views(out@) + symbols_in(ctx@, lo as int, hi as int) == views(old(out)@)
                + symbols_in(ctx@, i + 1, hi as int),
        decreases hi - lo,
    {
        if tree.named(lo) && tree.is(lo, "block") {
            if let Some(symbol) = extract_block_symbol(ctx, lo) {
                put(out, symbol);
            }
        }
        lo = tree.next(lo, hi);
    }
}

/// What an HCL file defines: what the blocks in its body define. Blocks inside
/// other blocks define nothing.
pub open spec fn symbols_of(c: Ctx) -> Seq<SymbolView> {
    match c.tree.named_child_of_kind(0, "body"@) {
        Some(body) => symbols_in(c, body + 1, c.tree.after(body)),
        None => Seq::empty(),
    }
}

/// What an HCL file defines.
fn collect_symbols(ctx: &ExtractCtx<'_>) -> (out: Vec<Symbol>)
    ensures
        views(out@) == symbols_of(ctx@),
{
    let mut out: Vec<Symbol> = Vec::new();
    proof {
        views_empty::<Symbol>();
    }
    if ctx.tree.len() > 0 {
        if let Some(body) = ctx.tree.named_child_of_kind(0, "body") {
            collect_blocks(ctx, body, &mut out);
        }
    }
    out
}

// ── References ───────────────────────────────────────────────────────────────

/// The variable and the first attribute of the traversal that the expression `i`
/// is, such as `module.vpc` in `module.vpc.id`.
pub open spec fn traversal(t: Syntax, i: int) -> Option<(int, int)> {
    if t.kind(i) == "expression"@ {
        match (t.named_child(i), t.named_child_of_kind(i, "get_attr"@)) {
            (Some(first), Some(attr)) => if t.kind(first) == "variable_expr"@ {
                Some((first, attr))
            } else {
                None
            },
            _ => None,
        }
    } else {
        None
    }
}

/// The reference of a traversal: its first attribute, qualified by its variable.
pub open spec fn traversal_ref(t: Syntax, file: Seq<char>, first: int, attr: int) -> Seq<
    ReferenceView,
> {
    match (t.named_child_of_kind(first, "identifier"@), t.named_child_of_kind(
        attr,
        "identifier"@,
    )) {
        (Some(variable), Some(name)) => if t.text(variable).len() > 0 && t.text(name).len() > 0 {
            seq![
                ReferenceView {
                    qualifier: Some(t.text(variable)),
                    ..reference_at(t, file, first, t.text(name), RefRole::TypeRef)
                },
            ]
        } else {
            Seq::empty()
        },
        _ => Seq::empty(),
    }
}

/// The references of node `i` itself.
pub open spec fn reference_of(t: Syntax, file: Seq<char>, i: int) -> Seq<ReferenceView> {
    match traversal(t, i) {
        Some((first, attr)) => traversal_ref(t, file, first, attr),
        None => Seq::empty(),
    }
}

/// The variable and the first attribute of the traversal that the expression `i`
/// is.
fn find_traversal(tree: &SyntaxTree, i: usize) -> (found: Option<(usize, usize)>)
    requires
        i < tree@.len(),
    ensures
        match found {
            Some((first, attr)) => traversal(tree@, i as int) == Some((first as int, attr as int))
                && first < tree@.len() && attr < tree@.len(),
            None => traversal(tree@, i as int) is None,
        },
{
    if tree.is(i, "expression") {
        if let Some(first) = tree.named_child(i) {
            if tree.is(first, "variable_expr") {
                if let Some(attr) = tree.named_child_of_kind(i, "get_attr") {
                    return Some((first, attr));
                }
            }
        }
    }
    None
}

/// Adds the reference of a traversal.
fn push_traversal(
    tree: &SyntaxTree,
    file: &str,
    first: usize,
    attr: usize,
    out: &mut Vec<Reference>,
)
    requires
        first < tree@.len(),
        attr < tree@.len(),
    ensures
        views(final(out)@) == views(old(out)@) + traversal_ref(
            tree@,
            file@,
            first as int,
            attr as int,
        ),
{
    if let Some(variable) = tree.named_child_of_kind(first, "identifier") {
        if let Some(name) = tree.named_child_of_kind(attr, "identifier") {
            if !is_empty(tree.text(variable)) && !is_empty(tree.text(name)) {
                let occ = node_occurrence(tree, file, first);
                let mut reference = bare_reference(tree.text(name), RefRole::TypeRef, occ);
                reference.qualifier = Some(tree.text(variable).to_owned());
                put(out, reference);
            }
        }
    }
}

/// The references in the subtree of node `i`.
pub open spec fn references_at(t: Syntax, file: Seq<char>, i: int) -> Seq<ReferenceView>
    decreases t.left(i), 0nat,
{
    if !t.has(i) {
        Seq::empty()
    } else {
        reference_of(t, file, i) + references_in(t, file, i + 1, t.after(i))
    }
}

/// The references in the subtrees of the nodes `lo..hi`.
pub open spec fn references_in(t: Syntax, file: Seq<char>, lo: int, hi: int) -> Seq<ReferenceView>
    decreases t.left(lo), 1nat,
{
    if lo >= hi || !t.has(lo) {
        Seq::empty()
    } else {
        references_at(t, file, lo) + references_in(t, file, t.next(lo, hi), hi)
    }
}

/// Adds the references in the subtree of node `i`.
fn collect_references_recursive(tree: &SyntaxTree, i: usize, file: &str, out: &mut Vec<Reference>)
    requires
        i < tree@.len(),
    ensures
        views(final(out)@) == views(old(out)@) + references_at(tree@, file@, i as int),
    decreases tree@.left(i as int),
{
    if let Some((first, attr)) = find_traversal(tree, i) {
        push_traversal(tree, file, first, attr, out);
    }
    let hi: usize = tree.after(i);
    let mut lo: usize = i + 1;
    while lo < hi
        invariant
            i < lo,
            i < tree@.len(),
            hi == tree@.after(i as int),
            hi <= tree@.len(),
            views(out@) + references_in(tree@, file@, lo as int, hi as int) == views(old(out)@)
                + references_at(tree@, file@, i as int),
        decreases hi - lo,
    {
        collect_references_recursive(tree, lo, file, out);
        lo = tree.next(lo, hi);
    }
}

/// The references of node `i` itself, for each `i`.
pub open spec fn references_of_nodes(
    t: Syntax,
    file: Seq<char>,
) -> spec_fn(int) -> Seq<ReferenceView> {
    |j: int| reference_of(t, file, j)
}

/// The references in a subtree are those of its nodes, in document order: none is missed
/// and none is reported twice.
pub proof fn references_in_document_order(t: Syntax, file: Seq<char>, i: int)
    requires
        t.nested(),
        t.has(i),
    ensures
        references_at(t, file, i) == in_order(references_of_nodes(t, file), i, t.after(i)),
    decreases t.left(i), 0nat,
{
    let items = references_of_nodes(t, file);
    references_of_siblings(t, file, i + 1, t.after(i));
    assert(in_order(items, i, t.after(i)) == items(i) + in_order(items, i + 1, t.after(i)));
    assert(Seq::<ReferenceView>::empty() + items(i) =~= items(i) + Seq::<ReferenceView>::empty());
}

proof fn references_of_siblings(t: Syntax, file: Seq<char>, lo: int, hi: int)
    requires
        t.nested(),
        t.closed_range(lo, hi),
    ensures
        references_in(t, file, lo, hi) == in_order(references_of_nodes(t, file), lo, hi),
    decreases t.left(lo), 1nat,
{
    if lo < hi {
        let items = references_of_nodes(t, file);
        references_in_document_order(t, file, lo);
        references_of_siblings(t, file, t.after(lo), hi);
        in_order_split(items, lo, t.after(lo), hi);
    }
}

/// The references of an HCL file, without their scopes.
fn collect_references(tree: &SyntaxTree, file: &str) -> (out: Vec<Reference>)
    ensures
        views(out@) == references_at(tree@, file@, 0),
{
    let mut out: Vec<Reference> = Vec::new();
    proof {
        views_empty::<Reference>();
    }
    if tree.len() > 0 {
        collect_references_recursive(tree, 0, file, &mut out);
    }
    out
}

// ── Facts ────────────────────────────────────────────────────────────────────

/// The facts of an HCL file with the nodes `t`.
pub open spec fn facts_of(t: Syntax, file: Seq<char>) -> FileFactsView {
    let source_len = byte_count(t.source) as int;
    let defs = symbols_of(Ctx { tree: t, file, lang: Language::Hcl });
    let scopes = seq![module_scope(source_len)];
    FileFactsView {
        file,
        lang: Language::Hcl.tag(),
        symbols: defs + seq![module_view(Language::Hcl, Seq::empty(), file, source_len)],
        references: all_scoped(scopes, references_at(t, file, 0)),
        scopes,
        bindings: definitions_bound(defs),
        ffi_exports: Seq::empty(),
    }
}

/// The facts of an HCL file, from its nodes.
pub fn file_facts(tree: &SyntaxTree, file: &str) -> (facts: FileFacts)
    ensures
        facts@ == facts_of(tree@, file@),
        coherent(facts@, byte_count(tree@.source) as int),
{
    let source_len: usize = byte_length(tree.source());
    let ctx = ExtractCtx { tree, file, lang: Language::Hcl };
    let defs = collect_symbols(&ctx);
    let bindings = definition_bindings(&defs);
    let ghost own = views(defs@);
    let mut symbols = defs;
    let namespaces: Vec<String> = Vec::new();
    proof {
        views_empty::<String>();
        views_empty::<FfiExport>();
    }
    put(&mut symbols, module_symbol(Language::Hcl, namespaces.as_slice(), file, source_len));
    let mut references = collect_references(tree, file);
    let scopes = collect_scopes(source_len);
    let ghost plain = views(references@);
    attach_reference_scopes(&mut references, &scopes);
    let facts = FileFacts {
        file: file.to_owned(),
        lang: Language::Hcl.as_str().to_owned(),
        symbols,
        references,
        scopes,
        bindings,
        ffi_exports: Vec::new(),
    };
    proof {
        facts_are_coherent(facts@, own, plain, Seq::empty(), Seq::empty(), source_len as int);
    }
    facts
}

/// Reads HCL files, those of Terraform among them.
pub struct HclExtractor;

impl Extractor for HclExtractor {
    open spec fn language(&self) -> Language {
        Language::Hcl
    }

    open spec fn facts(&self, tree: tree_sitter::Tree, file: Seq<char>) -> Result<
        FileFactsView,
        ErrorView,
    > {
        Ok(facts_of(syntax_of(tree), file))
    }

    fn lang(&self) -> (lang: Language) {
        Language::Hcl
    }

    fn extract_facts(&self, source: &str, file: &str) -> (result: Result<
        FileFacts,
        CodegraphError,
    >) {
        match parse(Language::Hcl, source) {
            None => Err(CodegraphError::Parse { path: file.to_owned() }),
            Some(parsed) => Ok(file_facts(parsed.syntax(), file)),
        }
    }
}

} // verus!
