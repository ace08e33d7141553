//! Reading the facts of a file from its syntax tree.
//!
//! This module holds what the languages share; each language has a module of
//! its own.

use crate::error::{CodegraphError, ErrorView};
use crate::graph::types::{
    Binding, BindingKind, BindingTarget, BindingTargetView, BindingView, ByteSpan, EntryPoint,
    FileFacts, FileFactsView, Occurrence, OccurrenceView, RefRole, Reference, ReferenceView, Scope, ScopeId,
    ScopeKind, Symbol, SymbolKind, SymbolView, TypeRefContext, Visibility,
};
use crate::items::{put, views, views_empty};
use crate::lang::Language;
use crate::parse::{is_parseable, tree_origin, Capture, CaptureView, Match};
use crate::symbol::{copy_descriptors, namespace_steps, Descriptor, DescriptorView, SymbolId};
use crate::syntax::{Syntax, SyntaxTree};
use crate::text::{
    byte_count, byte_length, ends_with, has_suffix, one_line, one_line_text, opt_text, same,
    slice_text, text_between,
};
use vstd::prelude::*;

pub mod c;
pub mod cpp;
pub mod csharp;
pub mod dart;
pub mod go;
pub mod hcl;
pub mod java;
pub mod kotlin;
pub mod lua;

verus! {

/// Names of fewer bytes than this are too short to be reported as calls, reads or
/// writes.
pub const MIN_REF_LEN: usize = 3;

/// The outcome of reading a file, by its contents.
pub open spec fn outcome(result: Result<FileFacts, CodegraphError>) -> Result<
    FileFactsView,
    ErrorView,
> {
    match result {
        Ok(facts) => Ok(facts@),
        Err(error) => Err(error@),
    }
}

/// Reads the facts of files in one language.
pub trait Extractor {
    /// The language.
    spec fn language(&self) -> Language;

    /// What is read from a file at the path `file` that was parsed into `tree`.
    spec fn facts(&self, tree: tree_sitter::Tree, file: Seq<char>) -> Result<
        FileFactsView,
        ErrorView,
    >;

    /// The language.
    fn lang(&self) -> (lang: Language)
        ensures
            lang == self.language(),
    ;

    /// Reads a file: its facts are those of a tree that its text is parsed into. A file
    /// that cannot be parsed is an error.
    fn extract_facts(&self, source: &str, file: &str) -> (result: Result<FileFacts, CodegraphError>)
        ensures
            if is_parseable(self.language(), source@) {
                exists|tree: tree_sitter::Tree| #[trigger]
                    tree_origin(tree) == (self.language(), source@) && outcome(result)
                        == self.facts(tree, file@)
            } else {
                outcome(result) == Err::<FileFactsView, ErrorView>(
                    ErrorView::Parse { path: file@ },
                )
            },
            result matches Ok(facts) ==> coherent(facts@, byte_count(source@) as int),
    ;

    /// Reads a file.
    fn extract(&self, source: &str, file: &str) -> (result: Result<FileFacts, CodegraphError>)
        ensures
            if is_parseable(self.language(), source@) {
                exists|tree: tree_sitter::Tree| #[trigger]
                    tree_origin(tree) == (self.language(), source@) && outcome(result)
                        == self.facts(tree, file@)
            } else {
                outcome(result) == Err::<FileFactsView, ErrorView>(
                    ErrorView::Parse { path: file@ },
                )
            },
            result matches Ok(facts) ==> coherent(facts@, byte_count(source@) as int),
    {
        self.extract_facts(source, file)
    }
}

/// What the definitions of a file are read from.
pub struct ExtractCtx<'a> {
    pub tree: &'a SyntaxTree,
    pub file: &'a str,
    pub lang: Language,
}

/// The contents of an [`ExtractCtx`].
pub struct Ctx {
    pub tree: Syntax,
    pub file: Seq<char>,
    pub lang: Language,
}

impl<'a> View for ExtractCtx<'a> {
    type V = Ctx;

    open spec fn view(&self) -> Ctx {
        Ctx { tree: self.tree@, file: self.file@, lang: self.lang }
    }
}

// ── Places ───────────────────────────────────────────────────────────────────

/// The place where node `i` starts.
pub open spec fn occurrence_at(t: Syntax, file: Seq<char>, i: int) -> OccurrenceView {
    OccurrenceView { file, row: t.row(i), column: t.column(i), byte: t.start(i) }
}

/// The place where node `i` starts.
pub fn node_occurrence(tree: &SyntaxTree, file: &str, i: usize) -> (occ: Occurrence)
    ensures
        occ@ == occurrence_at(tree@, file@, i as int),
{
    Occurrence {
        file: file.to_owned(),
        row: tree.row(i),
        column: tree.column(i),
        byte: tree.start(i),
    }
}

/// The bytes of node `i`.
pub open spec fn span_at(t: Syntax, i: int) -> ByteSpan {
    ByteSpan { start: t.start(i) as usize, end: t.end(i) as usize }
}

/// The bytes of node `i`.
pub fn node_span(tree: &SyntaxTree, i: usize) -> (span: ByteSpan)
    ensures
        span == span_at(tree@, i as int),
{
    ByteSpan { start: tree.start(i), end: tree.end(i) }
}

// ── Symbols ──────────────────────────────────────────────────────────────────

/// A symbol that node `i` defines.
pub open spec fn symbol_at(
    c: Ctx,
    i: int,
    name: Seq<char>,
    kind: SymbolKind,
    visibility: Visibility,
    id: Seq<DescriptorView>,
    signature: Seq<char>,
) -> SymbolView {
    SymbolView {
        id,
        name,
        kind,
        visibility,
        lang: c.lang,
        signature,
        occ: occurrence_at(c.tree, c.file, i),
        span: span_at(c.tree, i),
        entry_points: Seq::empty(),
    }
}

/// A symbol that node `i` defines.
pub fn make_symbol(
    ctx: &ExtractCtx<'_>,
    i: usize,
    name: String,
    kind: SymbolKind,
    visibility: Visibility,
    descriptors: Vec<Descriptor>,
    signature: String,
) -> (symbol: Symbol)
    ensures
        symbol@ == symbol_at(
            ctx@,
            i as int,
            name@,
            kind,
            visibility,
            views(descriptors@),
            signature@,
        ),
{
    proof {
        views_empty::<EntryPoint>();
    }
    Symbol {
        id: SymbolId { descriptors },
        name,
        kind,
        visibility,
        lang: ctx.lang,
        signature,
        occ: node_occurrence(ctx.tree, ctx.file, i),
        span: node_span(ctx.tree, i),
        entry_points: Vec::new(),
    }
}

/// A symbol that node `i` defines under the steps `prefix`: the last step of its
/// identity is `leaf`, its signature the text of the node up to the first of the
/// characters `stops`.
pub open spec fn defined_at(
    c: Ctx,
    prefix: Seq<DescriptorView>,
    i: int,
    name: Seq<char>,
    kind: SymbolKind,
    visibility: Visibility,
    leaf: DescriptorView,
    stops: Seq<char>,
) -> SymbolView {
    symbol_at(
        c,
        i,
        name,
        kind,
        visibility,
        prefix + seq![leaf],
        one_line(c.tree.text(i), stops),
    )
}

/// A symbol that node `i` defines under the steps `prefix`.
pub fn define(
    ctx: &ExtractCtx<'_>,
    prefix: &Vec<Descriptor>,
    i: usize,
    name: String,
    kind: SymbolKind,
    visibility: Visibility,
    leaf: Descriptor,
    stops: &str,
) -> (symbol: Symbol)
    ensures
        symbol@ == defined_at(
            ctx@,
            views(prefix@),
            i as int,
            name@,
            kind,
            visibility,
            leaf@,
            stops@,
        ),
{
    let mut descriptors = copy_descriptors(prefix);
    put(&mut descriptors, leaf);
    let signature = one_line_text(ctx.tree.text(i), stops);
    make_symbol(ctx, i, name, kind, visibility, descriptors, signature)
}

/// Adds an entry point to a symbol.
pub fn add_entry_point(symbol: &mut Symbol, entry: EntryPoint)
    ensures
        final(symbol)@ == (SymbolView {
            entry_points: old(symbol)@.entry_points + seq![entry@],
            ..old(symbol)@
        }),
{
    put(&mut symbol.entry_points, entry);
}

/// The namespace steps of a list of names.
pub fn namespace_descriptors(names: &Vec<String>) -> (steps: Vec<Descriptor>)
    ensures
        views(steps@) == namespace_steps(views(names@)),
{
    let mut steps: Vec<Descriptor> = Vec::new();
    let mut i: usize = 0;
    while i < names.len()
        invariant
            i <= names@.len(),
            steps@.len() == i,
            forall|j: int|
                0 <= j < i ==> #[trigger] steps@[j]@ == DescriptorView::Namespace(names@[j]@),
        decreases names@.len() - i,
    {
        steps.push(Descriptor::Namespace(names[i].as_str().to_owned()));
        i += 1;
    }
    assert(views(steps@) =~= namespace_steps(views(names@)));
    steps
}

/// The file name of a path, without its directories and its last extension.
pub open spec fn file_stem(file: Seq<char>) -> Seq<char> {
    let name = crate::text::after_last(file, '/');
    crate::text::before_last(name, '.')
}

/// The names that lead to the module of a file: its namespaces, or the stem of
/// its path where it has none.
pub open spec fn module_names(namespaces: Seq<Seq<char>>, file: Seq<char>) -> Seq<Seq<char>> {
    if namespaces.len() == 0 {
        seq![file_stem(file)]
    } else {
        namespaces
    }
}

/// The symbol of a file as a whole.
pub open spec fn module_view(
    lang: Language,
    namespaces: Seq<Seq<char>>,
    file: Seq<char>,
    source_len: int,
) -> SymbolView {
    SymbolView {
        id: namespace_steps(module_names(namespaces, file)),
        name: module_names(namespaces, file).last(),
        kind: SymbolKind::Module,
        visibility: Visibility::Public,
        lang,
        signature: Seq::empty(),
        occ: OccurrenceView { file, row: 0, column: 0, byte: 0 },
        span: ByteSpan { start: 0, end: source_len as usize },
        entry_points: Seq::empty(),
    }
}

/// The symbol of a file as a whole.
pub fn module_symbol(
    lang: Language,
    namespaces: &[String],
    file: &str,
    source_len: usize,
) -> (symbol:
    Symbol)
    ensures
        symbol@ == module_view(lang, views(namespaces@), file@, source_len as int),
{
    let mut names: Vec<String> = Vec::new();
    let mut i: usize = 0;
    while i < namespaces.len()
        invariant
            i <= namespaces@.len(),
            names@.len() == i,
            forall|j: int| 0 <= j < i ==> #[trigger] names@[j]@ == namespaces@[j]@,
        decreases namespaces@.len() - i,
    {
        names.push(namespaces[i].as_str().to_owned());
        i += 1;
    }
    if names.len() == 0 {
        let stem = crate::text::before_last_text(crate::text::after_last_text(file, '/'), '.');
        names.push(stem.to_owned());
    }
    assert(views(names@) =~= module_names(views(namespaces@), file@));
    let name = names[names.len() - 1].as_str().to_owned();
    let signature = String::new();
    proof {
        views_empty::<EntryPoint>();
        assert(signature@ =~= Seq::<char>::empty());
    }
    Symbol {
        id: SymbolId { descriptors: namespace_descriptors(&names) },
        name,
        kind: SymbolKind::Module,
        visibility: Visibility::Public,
        lang,
        signature,
        occ: Occurrence { file: file.to_owned(), row: 0, column: 0, byte: 0 },
        span: ByteSpan { start: 0, end: source_len },
        entry_points: Vec::new(),
    }
}

/// Whether one of the siblings `lo..hi` is the storage class `static`.
pub open spec fn static_in(t: Syntax, lo: int, hi: int) -> bool
    decreases hi - lo,
{
    lo < hi && ((t.kind(lo) == "storage_class_specifier"@ && t.text(lo) == "static"@) || static_in(
        t,
        t.next(lo, hi),
        hi,
    ))
}

/// Whether node `i` has the storage class `static`.
pub open spec fn static_at(t: Syntax, i: int) -> bool {
    static_in(t, i + 1, t.after(i))
}

/// Whether node `i` has the storage class `static`.
pub fn is_static(tree: &SyntaxTree, i: usize) -> (b: bool)
    requires
        i < tree@.len(),
    ensures
        b == static_at(tree@, i as int),
{
    let hi: usize = tree.after(i);
    let mut lo: usize = i + 1;
    while lo < hi
        invariant
            i < lo,
            hi == tree@.after(i as int),
            hi <= tree@.len(),
            static_in(tree@, lo as int, hi as int) == static_at(tree@, i as int),
        decreases hi - lo,
    {
        if tree.is(lo, "storage_class_specifier") && same(tree.text(lo), "static") {
            return true;
        }
        lo = tree.next(lo, hi);
    }
    false
}

/// Whether node `i` only holds declarations of a C or C++ file: those that are
/// compiled under a condition, and those with a linkage of their own.
pub open spec fn is_section(t: Syntax, i: int) -> bool {
    t.kind(i) == "preproc_if"@ || t.kind(i) == "preproc_ifdef"@ || t.kind(i) == "preproc_else"@
        || t.kind(i) == "preproc_elif"@ || t.kind(i) == "preproc_elifdef"@ || t.kind(i)
        == "linkage_specification"@ || t.kind(i) == "declaration_list"@
}

/// Whether node `i` only holds declarations of a C or C++ file.
pub fn holds_declarations(tree: &SyntaxTree, i: usize) -> (b: bool)
    ensures
        b == is_section(tree@, i as int),
{
    tree.is(i, "preproc_if") || tree.is(i, "preproc_ifdef") || tree.is(i, "preproc_else")
        || tree.is(i, "preproc_elif") || tree.is(i, "preproc_elifdef") || tree.is(
        i,
        "linkage_specification",
    ) || tree.is(i, "declaration_list")
}

// ── References ───────────────────────────────────────────────────────────────

/// A reference of which only the name, the role and the place are known.
pub open spec fn plain_reference(
    name: Seq<char>,
    role: RefRole,
    occ: OccurrenceView,
) -> ReferenceView {
    ReferenceView {
        name,
        qualifier: None,
        role,
        occ,
        source_module: None,
        from_path: None,
        is_reexport: false,
        imported_name: None,
        scope: None,
        type_ref_ctx: None,
        cross_artifact: false,
        self_receiver: false,
    }
}

/// A reference of which only the name, the role and the place are known.
pub fn bare_reference(name: &str, role: RefRole, occ: Occurrence) -> (reference: Reference)
    ensures
        reference@ == plain_reference(name@, role, occ@),
{
    Reference {
        name: name.to_owned(),
        qualifier: None,
        role,
        occ,
        source_module: None,
        from_path: None,
        is_reexport: false,
        imported_name: None,
        scope: None,
        type_ref_ctx: None,
        cross_artifact: false,
        self_receiver: false,
    }
}

/// A reference at node `i`.
pub open spec fn reference_at(
    t: Syntax,
    file: Seq<char>,
    i: int,
    name: Seq<char>,
    role: RefRole,
) -> ReferenceView {
    plain_reference(name, role, occurrence_at(t, file, i))
}

/// Adds a reference at node `i`.
pub fn push_ref(
    out: &mut Vec<Reference>,
    tree: &SyntaxTree,
    file: &str,
    i: usize,
    name: &str,
    role: RefRole,
)
    ensures
        views(final(out)@) == views(old(out)@) + seq![
            reference_at(tree@, file@, i as int, name@, role),
        ],
{
    put(out, bare_reference(name, role, node_occurrence(tree, file, i)));
}

/// A type reference at node `i`.
pub open spec fn type_reference_at(
    t: Syntax,
    file: Seq<char>,
    i: int,
    name: Seq<char>,
    ctx: TypeRefContext,
) -> ReferenceView {
    ReferenceView {
        type_ref_ctx: Some(ctx),
        ..reference_at(t, file, i, name, RefRole::TypeRef)
    }
}

/// Adds a type reference at node `i`.
pub fn push_type_ref(
    out: &mut Vec<Reference>,
    tree: &SyntaxTree,
    file: &str,
    i: usize,
    name: &str,
    ctx: TypeRefContext,
)
    ensures
        views(final(out)@) == views(old(out)@) + seq![
            type_reference_at(tree@, file@, i as int, name@, ctx),
        ],
{
    let mut reference = bare_reference(name, RefRole::TypeRef, node_occurrence(tree, file, i));
    reference.type_ref_ctx = Some(ctx);
    put(out, reference);
}

/// The text, unless it is empty.
pub open spec fn non_empty(text: Seq<char>) -> Option<Seq<char>> {
    if text.len() == 0 {
        None
    } else {
        Some(text)
    }
}

/// An import at node `i` in the module `module`, from the path `from_path`
/// where that is not empty.
pub open spec fn import_at(
    t: Syntax,
    file: Seq<char>,
    i: int,
    name: Seq<char>,
    module: Seq<char>,
    from_path: Seq<char>,
) -> ReferenceView {
    ReferenceView {
        source_module: Some(module),
        from_path: non_empty(from_path),
        ..reference_at(t, file, i, name, RefRole::Import)
    }
}

/// Adds an import at node `i`.
pub fn push_import_ref(
    out: &mut Vec<Reference>,
    tree: &SyntaxTree,
    file: &str,
    i: usize,
    name: &str,
    module: &str,
    from_path: &str,
)
    ensures
        views(final(out)@) == views(old(out)@) + seq![
            import_at(tree@, file@, i as int, name@, module@, from_path@),
        ],
{
    let mut reference = bare_reference(name, RefRole::Import, node_occurrence(tree, file, i));
    reference.source_module = Some(module.to_owned());
    if !crate::text::is_empty(from_path) {
        reference.from_path = Some(from_path.to_owned());
    }
    put(out, reference);
}

/// Whether a name is long enough to be reported.
pub open spec fn reportable(name: Seq<char>) -> bool {
    byte_count(name) >= MIN_REF_LEN
}

/// Whether a name is long enough to be reported.
pub fn is_reportable(name: &str) -> (b: bool)
    ensures
        b == reportable(name@),
{
    byte_length(name) >= MIN_REF_LEN
}

// ── Calls ────────────────────────────────────────────────────────────────────

/// The first of the captures from `i` on with the name `name`.
pub open spec fn capture_from(
    captures: Seq<CaptureView>,
    i: int,
    name: Seq<char>,
) -> Option<CaptureView>
    decreases captures.len() - i,
{
    if i >= captures.len() {
        None
    } else if captures[i].name == name {
        Some(captures[i])
    } else {
        capture_from(captures, i + 1, name)
    }
}

/// The first capture with the name `name`.
pub fn find_capture<'a>(found: &'a Match, name: &str) -> (capture: Option<&'a Capture>)
    ensures
        match capture {
            Some(c) => capture_from(found@, 0, name@) == Some(c@),
            None => capture_from(found@, 0, name@) is None,
        },
{
    let mut i: usize = 0;
    while i < found.captures.len()
        invariant
            i <= found@.len(),
            found@.len() == found.captures@.len(),
            capture_from(found@, i as int, name@) == capture_from(found@, 0, name@),
        decreases found@.len() - i,
    {
        if same(found.captures[i].name.as_str(), name) {
            return Some(&found.captures[i]);
        }
        i += 1;
    }
    None
}

/// The text of a capture.
pub open spec fn capture_text(source: Seq<char>, capture: CaptureView) -> Seq<char> {
    text_between(source, capture.start, capture.end)
}

/// The text of the capture with the name `name`, where there is one.
pub open spec fn captured(
    source: Seq<char>,
    found: Seq<CaptureView>,
    name: Seq<char>,
) -> Option<Seq<char>> {
    match capture_from(found, 0, name) {
        Some(c) => Some(capture_text(source, c)),
        None => None,
    }
}

/// The call that a match reports: the text under `callee` where it is long
/// enough, with the text under `qualifier` where there is one.
pub open spec fn call_of(source: Seq<char>, file: Seq<char>, found: Seq<CaptureView>) -> Seq<
    ReferenceView,
> {
    match capture_from(found, 0, "callee"@) {
        Some(c) => if reportable(capture_text(source, c)) {
            seq![
                ReferenceView {
                    qualifier: captured(source, found, "qualifier"@),
                    ..plain_reference(
                        capture_text(source, c),
                        RefRole::Call,
                        OccurrenceView { file, row: c.row, column: c.column, byte: c.start },
                    )
                },
            ]
        } else {
            Seq::empty()
        },
        None => Seq::empty(),
    }
}

/// The calls that the first `n` matches report.
pub open spec fn calls_of(
    source: Seq<char>,
    file: Seq<char>,
    found: Seq<Seq<CaptureView>>,
    n: int,
) -> Seq<ReferenceView>
    decreases n,
{
    if n <= 0 {
        Seq::empty()
    } else {
        calls_of(source, file, found, n - 1) + call_of(source, file, found[n - 1])
    }
}

/// The calls of a file, from the matches of a query that captures `callee` and,
/// where a call has one, `qualifier`.
pub open spec fn calls(
    source: Seq<char>,
    file: Seq<char>,
    found: Seq<Seq<CaptureView>>,
) -> Seq<ReferenceView> {
    calls_of(source, file, found, found.len() as int)
}

/// Adds the call that a match reports.
fn push_call(out: &mut Vec<Reference>, source: &str, file: &str, found: &Match)
    ensures
        views(final(out)@) == views(old(out)@) + call_of(source@, file@, found@),
{
    if let Some(c) = find_capture(found, "callee") {
        let name = slice_text(source, c.start, c.end);
        if is_reportable(name) {
            let occ = Occurrence {
                file: file.to_owned(),
                row: c.row,
                column: c.column,
                byte: c.start,
            };
            let mut reference = bare_reference(name, RefRole::Call, occ);
            if let Some(q) = find_capture(found, "qualifier") {
                reference.qualifier = Some(slice_text(source, q.start, q.end).to_owned());
            }
            put(out, reference);
        }
    }
}

/// The calls of a file, from the matches of a query.
pub fn collect_call_references(
    source: &str,
    file: &str,
    found: &Vec<Match>,
) -> (out: Vec<Reference>)
    ensures
        views(out@) == calls(source@, file@, views(found@)),
{
    let mut out: Vec<Reference> = Vec::new();
    proof {
        views_empty::<Reference>();
    }
    let mut i: usize = 0;
    while i < found.len()
        invariant
            i <= found@.len(),
            views(out@) == calls_of(source@, file@, views(found@), i as int),
        decreases found@.len() - i,
    {
        push_call(&mut out, source, file, &found[i]);
        i += 1;
    }
    out
}

/// The first match from `i` on whose capture under `callee` starts at `byte`.
pub open spec fn match_from(found: Seq<Seq<CaptureView>>, i: int, byte: int) -> Option<
    Seq<CaptureView>,
>
    decreases found.len() - i,
{
    if i >= found.len() {
        None
    } else if capture_from(found[i], 0, "callee"@) matches Some(c) && c.start == byte {
        Some(found[i])
    } else {
        match_from(found, i + 1, byte)
    }
}

/// The first match whose capture under `callee` starts at `byte`.
fn find_match<'a>(found: &'a Vec<Match>, byte: usize) -> (hit: Option<&'a Match>)
    ensures
        match hit {
            Some(m) => match_from(views(found@), 0, byte as int) == Some(m@),
            None => match_from(views(found@), 0, byte as int) is None,
        },
{
    let mut i: usize = 0;
    while i < found.len()
        invariant
            i <= found@.len(),
            match_from(views(found@), i as int, byte as int) == match_from(
                views(found@),
                0,
                byte as int,
            ),
        decreases found@.len() - i,
    {
        if let Some(c) = find_capture(&found[i], "callee") {
            if c.start == byte {
                return Some(&found[i]);
            }
        }
        i += 1;
    }
    None
}

/// A reference, marked as a call on the object itself where it is a call that a
/// match reports. Such a call has no other qualifier.
pub open spec fn self_marked(found: Seq<Seq<CaptureView>>, r: ReferenceView) -> ReferenceView {
    if r.role == RefRole::Call && match_from(found, 0, r.occ.byte) is Some {
        ReferenceView { self_receiver: true, qualifier: None, ..r }
    } else {
        r
    }
}

/// Marks the calls that a query on calls on the object itself reports.
pub fn mark_self_receiver_calls(references: &mut Vec<Reference>, found: &Vec<Match>)
    ensures
        views(final(references)@) == views(old(references)@).map_values(
            |r: ReferenceView| self_marked(views(found@), r),
        ),
{
    let ghost before = views(references@);
    let mut i: usize = 0;
    while i < references.len()
        invariant
            i <= references@.len(),
            references@.len() == before.len(),
            forall|j: int|
                0 <= j < i ==> #[trigger] references@[j]@ == self_marked(views(found@), before[j]),
            forall|j: int| i <= j < before.len() ==> #[trigger] references@[j]@ == before[j],
        decreases references@.len() - i,
    {
        assert(references@[i as int]@ == before[i as int]);
        if references[i].role == RefRole::Call {
            if find_match(found, references[i].occ.byte).is_some() {
                references[i].self_receiver = true;
                references[i].qualifier = None;
            }
        }
        i += 1;
    }
    assert(views(references@) =~= before.map_values(
        |r: ReferenceView| self_marked(views(found@), r),
    ));
}

/// A reference, with the text under `receiver` as its qualifier where it is a
/// call without one that a match reports, and not on the object itself.
pub open spec fn receiver_marked(
    source: Seq<char>,
    found: Seq<Seq<CaptureView>>,
    r: ReferenceView,
) -> ReferenceView {
    if r.role == RefRole::Call && r.qualifier is None && !r.self_receiver {
        match match_from(found, 0, r.occ.byte) {
            Some(m) => ReferenceView { qualifier: captured(source, m, "receiver"@), ..r },
            None => r,
        }
    } else {
        r
    }
}

/// Gives the calls that a query on calls on a named receiver reports that
/// receiver as their qualifier.
pub fn mark_receiver_qualifier_calls(
    references: &mut Vec<Reference>,
    source: &str,
    found: &Vec<Match>,
)
    ensures
        views(final(references)@) == views(old(references)@).map_values(
            |r: ReferenceView| receiver_marked(source@, views(found@), r),
        ),
{
    let ghost before = views(references@);
    let mut i: usize = 0;
    while i < references.len()
        invariant
            i <= references@.len(),
            references@.len() == before.len(),
            forall|j: int|
                0 <= j < i ==> #[trigger] references@[j]@ == receiver_marked(
                    source@,
                    views(found@),
                    before[j],
                ),
            forall|j: int| i <= j < before.len() ==> #[trigger] references@[j]@ == before[j],
        decreases references@.len() - i,
    {
        assert(references@[i as int]@ == before[i as int]);
        if references[i].role == RefRole::Call && references[i].qualifier.is_none()
            && !references[i].self_receiver {
            if let Some(m) = find_match(found, references[i].occ.byte) {
                if let Some(c) = find_capture(m, "receiver") {
                    references[i].qualifier = Some(slice_text(source, c.start, c.end).to_owned());
                }
            }
        }
        i += 1;
    }
    assert(views(references@) =~= before.map_values(
        |r: ReferenceView| receiver_marked(source@, views(found@), r),
    ));
}

/// The calls of a file, those on the object itself marked.
pub open spec fn calls_marked(
    source: Seq<char>,
    file: Seq<char>,
    found: Seq<Seq<CaptureView>>,
    on_self: Seq<Seq<CaptureView>>,
) -> Seq<ReferenceView> {
    calls(source, file, found).map_values(|r: ReferenceView| self_marked(on_self, r))
}

/// The calls of a file, those on the object itself marked and those on a named
/// receiver qualified by it.
pub open spec fn calls_qualified(
    source: Seq<char>,
    file: Seq<char>,
    found: Seq<Seq<CaptureView>>,
    on_self: Seq<Seq<CaptureView>>,
    on_receiver: Seq<Seq<CaptureView>>,
) -> Seq<ReferenceView> {
    calls_marked(source, file, found, on_self).map_values(
        |r: ReferenceView| receiver_marked(source, on_receiver, r),
    )
}

// ── Scopes ───────────────────────────────────────────────────────────────────

/// Adds a scope and returns its number.
pub fn push_scope(
    scopes: &mut Vec<Scope>,
    parent: Option<ScopeId>,
    span: ByteSpan,
    kind: ScopeKind,
) -> (id: ScopeId)
    ensures
        final(scopes)@ == old(scopes)@.push(Scope { parent, span, kind }),
        id == old(scopes)@.len(),
{
    let id: usize = scopes.len();
    scopes.push(Scope { parent, span, kind });
    id
}

/// The scope of a file as a whole.
pub open spec fn module_scope(source_len: int) -> Scope {
    Scope {
        parent: None,
        span: ByteSpan { start: 0, end: source_len as usize },
        kind: ScopeKind::Module,
    }
}

/// Whether scopes form a tree: the first has no parent, and the parent of any other
/// stands before it.
pub open spec fn is_scope_tree(scopes: Seq<Scope>) -> bool {
    &&& scopes.len() > 0
    &&& scopes[0].parent is None
    &&& forall|k: int|
        0 < k < scopes.len() ==> (#[trigger] scopes[k].parent matches Some(p) && p < k)
}

/// Whether `more` starts with `scopes`.
pub open spec fn extends(more: Seq<Scope>, scopes: Seq<Scope>) -> bool {
    &&& more.len() >= scopes.len()
    &&& forall|k: int| 0 <= k < scopes.len() ==> #[trigger] more[k] == scopes[k]
}

/// Whether scopes are those of a file: a tree below the scope of the file as a
/// whole.
pub open spec fn are_file_scopes(scopes: Seq<Scope>, source_len: int) -> bool {
    is_scope_tree(scopes) && scopes[0] == module_scope(source_len)
}

/// Whether a span lies in another.
pub open spec fn inside(inner: ByteSpan, outer: ByteSpan) -> bool {
    outer.start <= inner.start && inner.end <= outer.end
}

/// Whether the bytes of each node lie in those of the nodes whose subtrees it stands
/// in.
pub open spec fn spans_nest(t: Syntax) -> bool {
    forall|i: int, j: int|
        t.has(i) && i <= j < #[trigger] t.after(i) ==> inside(
            #[trigger] span_at(t, j),
            span_at(t, i),
        )
}

/// Whether each scope lies in its parent.
pub open spec fn scopes_nest(scopes: Seq<Scope>) -> bool {
    forall|k: int|
        0 < k < scopes.len() ==> (#[trigger] scopes[k].parent matches Some(p) && inside(
            scopes[k].span,
            scopes[p as int].span,
        ))
}

/// Whether nodes and scopes nest, and node `i` lies in the scope `parent`.
pub open spec fn nests_under(t: Syntax, i: int, parent: ScopeId, scopes: Seq<Scope>) -> bool {
    &&& spans_nest(t)
    &&& scopes_nest(scopes)
    &&& inside(span_at(t, i), scopes[parent as int].span)
}

/// Whether a scope holds a byte.
pub open spec fn holds(scope: Scope, byte: int) -> bool {
    scope.span.start <= byte < scope.span.end
}

/// The last of the first `n` scopes that holds a byte. A scope stands behind
/// those that it is nested in, so this is the innermost one.
pub open spec fn innermost_of(scopes: Seq<Scope>, n: int, byte: int) -> Option<ScopeId>
    decreases n,
{
    if n <= 0 {
        None
    } else if holds(scopes[n - 1], byte) {
        Some((n - 1) as usize)
    } else {
        innermost_of(scopes, n - 1, byte)
    }
}

/// The innermost scope that holds a byte.
pub open spec fn innermost(scopes: Seq<Scope>, byte: int) -> Option<ScopeId> {
    innermost_of(scopes, scopes.len() as int, byte)
}

/// The parent of a scope that holds a byte holds the byte as well.
pub proof fn parents_hold(scopes: Seq<Scope>, k: int, byte: int)
    requires
        scopes_nest(scopes),
        0 < k < scopes.len(),
        holds(scopes[k], byte),
    ensures
        scopes[k].parent matches Some(p) && holds(scopes[p as int], byte),
{
}

/// The innermost scope of a byte holds it, and no scope behind it does. Where no
/// scope holds the byte, it has none.
pub proof fn innermost_is_last(scopes: Seq<Scope>, n: int, byte: int)
    requires
        0 <= n <= scopes.len() <= usize::MAX,
    ensures
        match innermost_of(scopes, n, byte) {
            Some(id) => id < n && holds(scopes[id as int], byte) && forall|k: int|
                id < k < n ==> !holds(#[trigger] scopes[k], byte),
            None => forall|k: int| 0 <= k < n ==> !holds(#[trigger] scopes[k], byte),
        },
    decreases n,
{
    if n > 0 && !holds(scopes[n - 1], byte) {
        innermost_is_last(scopes, n - 1, byte);
    }
}

/// The innermost scope that holds a byte.
#[verifier::loop_isolation(false)]
pub fn innermost_scope(byte: usize, scopes: &Vec<Scope>) -> (scope: Option<ScopeId>)
    ensures
        scope == innermost(scopes@, byte as int),
        match scope {
            Some(id) => id < scopes@.len() && holds(scopes@[id as int], byte as int)
                && forall|k: int|
                id < k < scopes@.len() ==> !holds(#[trigger] scopes@[k], byte as int),
            None => forall|k: int|
                0 <= k < scopes@.len() ==> !holds(#[trigger] scopes@[k], byte as int),
        },
{
    proof {
        assert(scopes.len() <= usize::MAX);
        innermost_is_last(scopes@, scopes@.len() as int, byte as int);
    }
    let mut n: usize = scopes.len();
    while n > 0
        invariant
            n <= scopes@.len(),
            innermost_of(scopes@, n as int, byte as int) == innermost(scopes@, byte as int),
        decreases n,
    {
        let span = scopes[n - 1].span;
        if span.start <= byte && byte < span.end {
            return Some(n - 1);
        }
        n -= 1;
    }
    None
}

/// Whether a byte lies in the scope of the file and in no scope inside it.
pub open spec fn at_file_level(scopes: Seq<Scope>, byte: int) -> bool {
    innermost(scopes, byte) == Some(0usize)
}

/// Whether a byte lies in the scope of the file and in no scope inside it.
pub fn is_file_level(byte: usize, scopes: &Vec<Scope>) -> (b: bool)
    ensures
        b == at_file_level(scopes@, byte as int),
{
    match innermost_scope(byte, scopes) {
        Some(id) => id == 0,
        None => false,
    }
}

/// A reference, with the innermost scope that holds its place.
pub open spec fn scoped(scopes: Seq<Scope>, r: ReferenceView) -> ReferenceView {
    ReferenceView { scope: innermost(scopes, r.occ.byte), ..r }
}

/// References, each with the innermost scope that holds its place.
pub open spec fn all_scoped(scopes: Seq<Scope>, references: Seq<ReferenceView>) -> Seq<
    ReferenceView,
> {
    references.map_values(|r: ReferenceView| scoped(scopes, r))
}

/// Gives each reference the innermost scope that holds its place.
pub fn attach_reference_scopes(references: &mut Vec<Reference>, scopes: &Vec<Scope>)
    ensures
        views(final(references)@) == all_scoped(scopes@, views(old(references)@)),
{
    let ghost before = views(references@);
    let mut i: usize = 0;
    while i < references.len()
        invariant
            i <= references@.len(),
            references@.len() == before.len(),
            forall|j: int|
                0 <= j < i ==> #[trigger] references@[j]@ == scoped(scopes@, before[j]),
            forall|j: int| i <= j < before.len() ==> #[trigger] references@[j]@ == before[j],
        decreases references@.len() - i,
    {
        assert(references@[i as int]@ == before[i as int]);
        let scope = innermost_scope(references[i].occ.byte, scopes);
        references[i].scope = scope;
        i += 1;
    }
    assert(views(references@) =~= all_scoped(scopes@, before));
}

// ── Bindings ─────────────────────────────────────────────────────────────────

/// The number of the scope that a name introduced at a byte is bound in.
pub open spec fn home_scope(scopes: Seq<Scope>, byte: int) -> ScopeId {
    match innermost(scopes, byte) {
        Some(id) => id,
        None => 0,
    }
}

/// A name that the innermost scope at its place binds.
pub open spec fn local_binding(
    scopes: Seq<Scope>,
    name: Seq<char>,
    intro: int,
    kind: BindingKind,
    declared_type: Option<Seq<char>>,
) -> BindingView {
    BindingView {
        name,
        scope: home_scope(scopes, intro),
        kind,
        target: BindingTargetView::Local,
        intro,
        declared_type,
    }
}

/// Adds a name that the innermost scope at its place binds, with the type that
/// it is declared with, where that is known.
pub fn push_typed_binding(
    out: &mut Vec<Binding>,
    name: String,
    intro: usize,
    kind: BindingKind,
    scopes: &Vec<Scope>,
    declared_type: Option<String>,
)
    ensures
        views(final(out)@) == views(old(out)@) + seq![
            local_binding(scopes@, name@, intro as int, kind, opt_text(declared_type)),
        ],
{
    let scope: usize = match innermost_scope(intro, scopes) {
        Some(id) => id,
        None => 0,
    };
    put(
        out,
        Binding { name, scope, kind, target: BindingTarget::Local, intro, declared_type },
    );
}

/// Adds a name that the innermost scope at its place binds.
pub fn push_binding(
    out: &mut Vec<Binding>,
    name: String,
    intro: usize,
    kind: BindingKind,
    scopes: &Vec<Scope>,
)
    ensures
        views(final(out)@) == views(old(out)@) + seq![
            local_binding(scopes@, name@, intro as int, kind, None),
        ],
{
    push_typed_binding(out, name, intro, kind, scopes, None);
}

/// The binding of a definition: it is known in the whole file.
pub open spec fn definition_binding(s: SymbolView) -> BindingView {
    BindingView {
        name: s.name,
        scope: 0,
        kind: BindingKind::Definition,
        target: BindingTargetView::Def(s.id),
        intro: 0,
        declared_type: None,
    }
}

/// The bindings of definitions.
pub open spec fn definitions_bound(symbols: Seq<SymbolView>) -> Seq<BindingView> {
    symbols.map_values(|s: SymbolView| definition_binding(s))
}

/// The bindings of definitions.
pub fn definition_bindings(symbols: &Vec<Symbol>) -> (out: Vec<Binding>)
    ensures
        views(out@) == definitions_bound(views(symbols@)),
{
    let mut out: Vec<Binding> = Vec::new();
    let mut i: usize = 0;
    while i < symbols.len()
        invariant
            i <= symbols@.len(),
            out@.len() == i,
            forall|j: int| 0 <= j < i ==> #[trigger] out@[j]@ == definition_binding(symbols@[j]@),
        decreases symbols@.len() - i,
    {
        let s = &symbols[i];
        out.push(
            Binding {
                name: s.name.as_str().to_owned(),
                scope: 0,
                kind: BindingKind::Definition,
                target: BindingTarget::Def(s.id.copy()),
                intro: 0,
                declared_type: None,
            },
        );
        i += 1;
    }
    assert(views(out@) =~= definitions_bound(views(symbols@)));
    out
}

/// The binding of an imported name.
pub open spec fn import_binding(scopes: Seq<Scope>, r: ReferenceView) -> BindingView {
    BindingView {
        name: r.name,
        scope: home_scope(scopes, r.occ.byte),
        kind: BindingKind::Import,
        target: BindingTargetView::Import,
        intro: r.occ.byte,
        declared_type: None,
    }
}

/// The bindings of the imports among the first `n` references.
pub open spec fn imports_bound_of(
    scopes: Seq<Scope>,
    references: Seq<ReferenceView>,
    n: int,
) -> Seq<
    BindingView,
>
    decreases n,
{
    if n <= 0 {
        Seq::empty()
    } else {
        imports_bound_of(scopes, references, n - 1) + if references[n - 1].role == RefRole::Import {
            seq![import_binding(scopes, references[n - 1])]
        } else {
            Seq::empty()
        }
    }
}

/// The bindings of the imports among references.
pub open spec fn imports_bound(scopes: Seq<Scope>, references: Seq<ReferenceView>) -> Seq<
    BindingView,
> {
    imports_bound_of(scopes, references, references.len() as int)
}

/// The bindings of the imports among references.
pub fn import_bindings(references: &Vec<Reference>, scopes: &Vec<Scope>) -> (out: Vec<Binding>)
    ensures
        views(out@) == imports_bound(scopes@, views(references@)),
{
    let mut out: Vec<Binding> = Vec::new();
    proof {
        views_empty::<Binding>();
    }
    let mut i: usize = 0;
    while i < references.len()
        invariant
            i <= references@.len(),
            views(out@) == imports_bound_of(scopes@, views(references@), i as int),
        decreases references@.len() - i,
    {
        let r = &references[i];
        if r.role == RefRole::Import {
            let scope: usize = match innermost_scope(r.occ.byte, scopes) {
                Some(id) => id,
                None => 0,
            };
            put(
                &mut out,
                Binding {
                    name: r.name.as_str().to_owned(),
                    scope,
                    kind: BindingKind::Import,
                    target: BindingTarget::Import,
                    intro: r.occ.byte,
                    declared_type: None,
                },
            );
        }
        i += 1;
    }
    out
}

// ── Facts ────────────────────────────────────────────────────────────────────

/// Whether the facts of a file fit together: the last symbol is that of the file
/// as a whole, the scopes form a tree below that of the file, each reference has
/// the innermost scope that holds its place, and each definition is bound in the
/// whole file.
pub open spec fn coherent(f: FileFactsView, source_len: int) -> bool {
    &&& f.symbols.len() > 0
    &&& f.symbols.last().kind == SymbolKind::Module
    &&& f.symbols.last().span == module_scope(source_len).span
    &&& are_file_scopes(f.scopes, source_len)
    &&& forall|k: int|
        0 <= k < f.references.len() ==> (#[trigger] f.references[k]).scope == innermost(
            f.scopes,
            f.references[k].occ.byte,
        )
    &&& forall|k: int|
        0 <= k < f.symbols.len() - 1 ==> f.bindings.contains(
            definition_binding(#[trigger] f.symbols[k]),
        )
}

/// Whether each import of a file is bound.
pub open spec fn imports_are_bound(f: FileFactsView) -> bool {
    forall|k: int|
        0 <= k < f.references.len() && (#[trigger] f.references[k]).role == RefRole::Import
            ==> f.bindings.contains(import_binding(f.scopes, f.references[k]))
}

/// Facts that are put together from definitions, scopes, references and bindings
/// fit together.
pub proof fn facts_are_coherent(
    f: FileFactsView,
    defs: Seq<SymbolView>,
    references: Seq<ReferenceView>,
    locals: Seq<BindingView>,
    more: Seq<BindingView>,
    source_len: int,
)
    requires
        f.symbols == defs + seq![f.symbols.last()],
        f.symbols.last().kind == SymbolKind::Module,
        f.symbols.last().span == module_scope(source_len).span,
        are_file_scopes(f.scopes, source_len),
        f.references == all_scoped(f.scopes, references),
        f.bindings == locals + definitions_bound(defs) + more,
    ensures
        coherent(f, source_len),
{
    let bound = definitions_bound(defs);
    assert forall|k: int| 0 <= k < f.symbols.len() - 1 implies f.bindings.contains(
        definition_binding(#[trigger] f.symbols[k]),
    ) by {
        assert(f.symbols[k] == defs[k]);
        assert(f.bindings[locals.len() + k] == bound[k]);
    }
    assert forall|k: int| 0 <= k < f.references.len() implies (
    #[trigger] f.references[k]).scope == innermost(f.scopes, f.references[k].occ.byte) by {
        assert(f.references[k] == scoped(f.scopes, references[k]));
    }
}

proof fn imports_bound_contains(scopes: Seq<Scope>, references: Seq<ReferenceView>, n: int, k: int)
    requires
        0 <= k < n <= references.len(),
        references[k].role == RefRole::Import,
    ensures
        imports_bound_of(scopes, references, n).contains(import_binding(scopes, references[k])),
    decreases n,
{
    let before = imports_bound_of(scopes, references, n - 1);
    let all = imports_bound_of(scopes, references, n);
    if k == n - 1 {
        assert(all[before.len() as int] == import_binding(scopes, references[k]));
    } else {
        imports_bound_contains(scopes, references, n - 1, k);
        let at = choose|at: int|
            0 <= at < before.len() && before[at] == import_binding(scopes, references[k]);
        assert(all[at] == before[at]);
    }
}

/// Facts whose bindings end with those of the imports have each import bound.
pub proof fn facts_bind_imports(f: FileFactsView, others: Seq<BindingView>)
    requires
        f.bindings == others + imports_bound(f.scopes, f.references),
    ensures
        imports_are_bound(f),
{
    let bound = imports_bound(f.scopes, f.references);
    assert forall|k: int|
        0 <= k < f.references.len() && (#[trigger] f.references[k]).role
            == RefRole::Import implies f.bindings.contains(
        import_binding(f.scopes, f.references[k]),
    ) by {
        imports_bound_contains(f.scopes, f.references, f.references.len() as int, k);
        let at = choose|at: int|
            0 <= at < bound.len() && bound[at] == import_binding(f.scopes, f.references[k]);
        assert(f.bindings[others.len() + at] == bound[at]);
    }
}

// ── Files ────────────────────────────────────────────────────────────────────

/// The language of a file, by the extension of its path.
pub open spec fn language_of(path: Seq<char>) -> Option<Language> {
    if has_suffix(path, ".c"@) || has_suffix(path, ".h"@) {
        Some(Language::C)
    } else if has_suffix(path, ".cc"@) || has_suffix(path, ".cpp"@) || has_suffix(path, ".cxx"@)
        || has_suffix(path, ".hh"@) || has_suffix(path, ".hpp"@) || has_suffix(path, ".hxx"@) {
        Some(Language::Cpp)
    } else if has_suffix(path, ".cs"@) {
        Some(Language::CSharp)
    } else if has_suffix(path, ".dart"@) {
        Some(Language::Dart)
    } else if has_suffix(path, ".go"@) {
        Some(Language::Go)
    } else if has_suffix(path, ".tf"@) || has_suffix(path, ".hcl"@)
        || has_suffix(path, ".tfvars"@) {
        Some(Language::Hcl)
    } else if has_suffix(path, ".java"@) {
        Some(Language::Java)
    } else if has_suffix(path, ".kt"@) || has_suffix(path, ".kts"@) {
        Some(Language::Kotlin)
    } else if has_suffix(path, ".lua"@) {
        Some(Language::Lua)
    } else {
        None
    }
}

/// The language of a file, by the extension of its path.
pub fn language_of_path(path: &str) -> (lang: Option<Language>)
    ensures
        lang == language_of(path@),
{
    if ends_with(path, ".c") || ends_with(path, ".h") {
        Some(Language::C)
    } else if ends_with(path, ".cc") || ends_with(path, ".cpp") || ends_with(path, ".cxx")
        || ends_with(path, ".hh") || ends_with(path, ".hpp") || ends_with(path, ".hxx") {
        Some(Language::Cpp)
    } else if ends_with(path, ".cs") {
        Some(Language::CSharp)
    } else if ends_with(path, ".dart") {
        Some(Language::Dart)
    } else if ends_with(path, ".go") {
        Some(Language::Go)
    } else if ends_with(path, ".tf") || ends_with(path, ".hcl") || ends_with(path, ".tfvars") {
        Some(Language::Hcl)
    } else if ends_with(path, ".java") {
        Some(Language::Java)
    } else if ends_with(path, ".kt") || ends_with(path, ".kts") {
        Some(Language::Kotlin)
    } else if ends_with(path, ".lua") {
        Some(Language::Lua)
    } else {
        None
    }
}

/// What is read from a file at `path` in the language `lang` that was parsed into
/// `tree`.
pub open spec fn facts_in(lang: Language, tree: tree_sitter::Tree, path: Seq<char>) -> Result<
    FileFactsView,
    ErrorView,
> {
    match lang {
        Language::C => c::CExtractor.facts(tree, path),
        Language::Cpp => cpp::CppExtractor.facts(tree, path),
        Language::CSharp => csharp::CSharpExtractor.facts(tree, path),
        Language::Dart => dart::DartExtractor.facts(tree, path),
        Language::Go => go::GoExtractor.facts(tree, path),
        Language::Hcl => hcl::HclExtractor.facts(tree, path),
        Language::Java => java::JavaExtractor.facts(tree, path),
        Language::Kotlin => kotlin::KotlinExtractor.facts(tree, path),
        Language::Lua => lua::LuaExtractor.facts(tree, path),
    }
}

/// Reads the file with the text `source` at `path`, in the language that its
/// extension stands for.
pub fn extract_path(path: &str, source: &str) -> (result: Result<FileFacts, CodegraphError>)
    ensures
        match language_of(path@) {
            None => outcome(result) == Err::<FileFactsView, ErrorView>(
                ErrorView::Unsupported { path: path@ },
            ),
            Some(lang) => if is_parseable(lang, source@) {
                exists|tree: tree_sitter::Tree| #[trigger]
                    tree_origin(tree) == (lang, source@) && outcome(result) == facts_in(
                        lang,
                        tree,
                        path@,
                    )
            } else {
                outcome(result) == Err::<FileFactsView, ErrorView>(
                    ErrorView::Parse { path: path@ },
                )
            },
        },
        result matches Ok(facts) ==> coherent(facts@, byte_count(source@) as int),
{
    match language_of_path(path) {
        None => Err(CodegraphError::Unsupported { path: path.to_owned() }),
        Some(lang) => match lang {
            Language::C => c::CExtractor.extract(source, path),
            Language::Cpp => cpp::CppExtractor.extract(source, path),
            Language::CSharp => csharp::CSharpExtractor.extract(source, path),
            Language::Dart => dart::DartExtractor.extract(source, path),
            Language::Go => go::GoExtractor.extract(source, path),
            Language::Hcl => hcl::HclExtractor.extract(source, path),
            Language::Java => java::JavaExtractor.extract(source, path),
            Language::Kotlin => kotlin::KotlinExtractor.extract(source, path),
            Language::Lua => lua::LuaExtractor.extract(source, path),
        },
    }
}

} // verus!
