//! What the facts of a file tell of its nodes.
//!
//! The laws of this module say of the nodes of a file what its facts hold for
//! them; each language has a module of its own.

use crate::extract::{
    MIN_REF_LEN, all_scoped, extends, holds, home_scope, innermost, innermost_of, local_binding,
    scoped,
};
use crate::graph::types::{
    BindingKind, BindingTargetView, EntryPointView, FileFactsView, OccurrenceView, RefRole,
    ReferenceView, Scope, ScopeId, ScopeKind, SymbolKind, SymbolView, TypeRefContext,
    Visibility,
};
use crate::symbol::DescriptorView;
use crate::syntax::Syntax;
use crate::text::{after_last, before_last, byte_count, last_index, unquoted_by};
use vstd::prelude::*;

pub mod bound;
pub mod c;
pub mod calls;
pub mod cpp;
pub mod csharp;
pub mod dart;
pub mod files;
pub mod go;
pub mod hcl;
pub mod java;
pub mod kotlin;
pub mod lines;
pub mod lua;
pub mod texts;

verus! {

// ── What facts can hold ──────────────────────────────────────────────────────

/// Whether a place is the start of node `i`.
pub open spec fn is_at(occ: OccurrenceView, file: Seq<char>, t: Syntax, i: int) -> bool {
    &&& occ.file == file
    &&& occ.row == t.row(i)
    &&& occ.column == t.column(i)
    &&& occ.byte == t.start(i)
}

/// Whether a file refers to a name at node `i`, in a role.
pub open spec fn refers(
    f: FileFactsView,
    t: Syntax,
    i: int,
    name: Seq<char>,
    role: RefRole,
) -> bool {
    exists|k: int|
        0 <= k < f.references.len() && (#[trigger] f.references[k]).name == name
            && f.references[k].role == role && is_at(f.references[k].occ, f.file, t, i)
}

/// Whether a file refers to a type at node `i`, from a position.
pub open spec fn refers_to_type(
    f: FileFactsView,
    t: Syntax,
    i: int,
    name: Seq<char>,
    position: TypeRefContext,
) -> bool {
    exists|k: int|
        0 <= k < f.references.len() && (#[trigger] f.references[k]).name == name
            && f.references[k].role == RefRole::TypeRef && f.references[k].type_ref_ctx == Some(
            position,
        ) && is_at(f.references[k].occ, f.file, t, i)
}

/// Whether a file imports a name at node `i`, from a path where one is given.
pub open spec fn imports(
    f: FileFactsView,
    t: Syntax,
    i: int,
    name: Seq<char>,
    path: Option<Seq<char>>,
) -> bool {
    exists|k: int|
        0 <= k < f.references.len() && (#[trigger] f.references[k]).name == name
            && f.references[k].role == RefRole::Import && f.references[k].from_path == path
            && is_at(f.references[k].occ, f.file, t, i)
}

/// Whether the last step to a definition fits its kind and has its name.
pub open spec fn leads_by(step: DescriptorView, kind: SymbolKind, name: Seq<char>) -> bool {
    match kind {
        SymbolKind::Function | SymbolKind::Method => step == (DescriptorView::Method {
            name,
            disambiguator: Seq::empty(),
        }) || step == DescriptorView::Macro(name),
        SymbolKind::Static | SymbolKind::Const => step == DescriptorView::Term(name) || step
            == DescriptorView::Macro(name),
        _ => step == DescriptorView::Type(name),
    }
}

/// Whether a symbol is a definition of a name at node `i`.
pub open spec fn is_definition(
    s: SymbolView,
    file: Seq<char>,
    t: Syntax,
    i: int,
    name: Seq<char>,
    kind: SymbolKind,
) -> bool {
    &&& s.name == name
    &&& s.kind == kind
    &&& s.id.len() > 0
    &&& leads_by(s.id.last(), kind, name)
    &&& is_at(s.occ, file, t, i)
    &&& s.span.start == t.start(i) as usize
    &&& s.span.end == t.end(i) as usize
}

/// Whether a file defines a name at node `i`.
pub open spec fn defines(
    f: FileFactsView,
    t: Syntax,
    i: int,
    name: Seq<char>,
    kind: SymbolKind,
) -> bool {
    exists|k: int|
        0 <= k < f.symbols.len() && is_definition(
            #[trigger] f.symbols[k],
            f.file,
            t,
            i,
            name,
            kind,
        )
}

/// Whether a file defines a name at node `i` with a visibility.
pub open spec fn defines_as(
    f: FileFactsView,
    t: Syntax,
    i: int,
    name: Seq<char>,
    kind: SymbolKind,
    visibility: Visibility,
) -> bool {
    exists|k: int|
        0 <= k < f.symbols.len() && is_definition(
            #[trigger] f.symbols[k],
            f.file,
            t,
            i,
            name,
            kind,
        ) && f.symbols[k].visibility == visibility
}

/// Whether a name that a file defines at node `i` is entered in a way.
pub open spec fn is_entered(
    f: FileFactsView,
    t: Syntax,
    i: int,
    name: Seq<char>,
    way: EntryPointView,
) -> bool {
    exists|k: int|
        0 <= k < f.symbols.len() && (#[trigger] f.symbols[k]).name == name && is_at(
            f.symbols[k].occ,
            f.file,
            t,
            i,
        ) && f.symbols[k].entry_points.contains(way)
}

/// Whether a file defines a name at node `i` under an identity.
pub open spec fn defines_under(
    f: FileFactsView,
    t: Syntax,
    i: int,
    name: Seq<char>,
    kind: SymbolKind,
    id: Seq<DescriptorView>,
) -> bool {
    exists|k: int|
        0 <= k < f.symbols.len() && is_definition(
            #[trigger] f.symbols[k],
            f.file,
            t,
            i,
            name,
            kind,
        ) && f.symbols[k].id == id
}

/// Whether a name that a file defines at node `i` stands in what it defines at
/// the node `owner`: its identity extends that one by one step.
pub open spec fn defines_in(
    f: FileFactsView,
    t: Syntax,
    owner: int,
    i: int,
    name: Seq<char>,
    kind: SymbolKind,
) -> bool {
    exists|k: int, j: int|
        0 <= k < f.symbols.len() && 0 <= j < f.symbols.len() && is_at(
            (#[trigger] f.symbols[k]).occ,
            f.file,
            t,
            owner,
        ) && is_definition(#[trigger] f.symbols[j], f.file, t, i, name, kind) && f.symbols[j].id
            == f.symbols[k].id.push(f.symbols[j].id.last())
}

/// Whether a file refers to a name at node `i`, in a role and qualified.
pub open spec fn refers_through(
    f: FileFactsView,
    t: Syntax,
    i: int,
    name: Seq<char>,
    role: RefRole,
    qualifier: Seq<char>,
) -> bool {
    exists|k: int|
        0 <= k < f.references.len() && (#[trigger] f.references[k]).name == name
            && f.references[k].role == role && f.references[k].qualifier == Some(qualifier)
            && is_at(f.references[k].occ, f.file, t, i)
}

/// Whether node `i` stands below a node of a kind.
pub open spec fn is_below(t: Syntax, kind: Seq<char>, i: int) -> bool {
    exists|k: int| 0 <= k < i && i < #[trigger] t.after(k) && t.kind(k) == kind
}

/// Whether the module of a file has these names.
pub open spec fn is_module(f: FileFactsView, names: Seq<Seq<char>>) -> bool {
    let s = f.symbols.last();
    &&& f.symbols.len() > 0
    &&& s.kind == SymbolKind::Module
    &&& s.name == names.last()
    &&& s.id.len() == names.len()
    &&& forall|k: int|
        0 <= k < names.len() ==> #[trigger] s.id[k] == DescriptorView::Namespace(names[k])
}

/// Whether the identity of the symbol `k` extends that of the module of the file.
pub open spec fn extends_module(f: FileFactsView, k: int) -> bool {
    &&& f.symbols[k].id.len() > f.symbols.last().id.len()
    &&& forall|j: int|
        0 <= j < f.symbols.last().id.len() ==> #[trigger] f.symbols[k].id[j]
            == f.symbols.last().id[j]
}

/// Whether a scope is the last one that holds a byte, or the first of all where
/// none does.
pub open spec fn is_innermost(scopes: Seq<Scope>, byte: int, id: ScopeId) -> bool {
    &&& forall|k: int|
        id < k < scopes.len() ==> !((#[trigger] scopes[k]).span.start <= byte < scopes[k].span.end)
    &&& id == 0 || (id < scopes.len() && scopes[id as int].span.start <= byte
        < scopes[id as int].span.end)
}

/// Whether the innermost scope at a byte binds a name there.
pub open spec fn binds(f: FileFactsView, name: Seq<char>, byte: int, kind: BindingKind) -> bool {
    exists|k: int|
        0 <= k < f.bindings.len() && (#[trigger] f.bindings[k]).name == name && f.bindings[k].kind
            == kind && f.bindings[k].intro == byte && f.bindings[k].target
            == BindingTargetView::Local && is_innermost(f.scopes, byte, f.bindings[k].scope)
}

/// Whether the innermost scope at a byte binds a name there, with a type.
pub open spec fn binds_as(
    f: FileFactsView,
    name: Seq<char>,
    byte: int,
    kind: BindingKind,
    ty: Seq<char>,
) -> bool {
    exists|k: int|
        0 <= k < f.bindings.len() && (#[trigger] f.bindings[k]).name == name && f.bindings[k].kind
            == kind && f.bindings[k].intro == byte && f.bindings[k].declared_type == Some(ty)
            && is_innermost(f.scopes, byte, f.bindings[k].scope)
}

/// Whether no scope but that of the file holds a byte, which that one does.
pub open spec fn outside_code(scopes: Seq<Scope>, byte: int) -> bool {
    &&& scopes.len() > 0
    &&& scopes[0].span.start <= byte < scopes[0].span.end
    &&& forall|k: int|
        0 < k < scopes.len() ==> !((#[trigger] scopes[k]).span.start <= byte < scopes[k].span.end)
}

/// Whether one of the scopes from `from` on is that of node `j`: its parent is
/// the scope `parent`, or that of the node `outer` where there is one.
pub open spec fn opens_scope(
    scopes: Seq<Scope>,
    from: int,
    t: Syntax,
    j: int,
    kind: ScopeKind,
    parent: ScopeId,
    outer: Option<int>,
) -> bool {
    exists|id: int|
        from <= id < scopes.len() && (#[trigger] scopes[id]).kind == kind && scopes[id].span.start
            == t.start(j) as usize && scopes[id].span.end == t.end(j) as usize && match outer {
            None => scopes[id].parent == Some(parent),
            Some(a) => scopes[id].parent matches Some(p) && from <= p < scopes.len()
                && scopes[p as int].span.start == t.start(a) as usize && scopes[p as int].span.end
                == t.end(a) as usize,
        }
}

/// Whether a name is long enough to be reported.
pub open spec fn long_enough(name: Seq<char>) -> bool {
    byte_count(name) >= 3
}

// ── How facts come to hold it ────────────────────────────────────────────────

/// Whether the references of a file hold `r`, with its scope.
pub open spec fn reported(f: FileFactsView, r: ReferenceView) -> bool {
    exists|k: int| 0 <= k < f.references.len() && #[trigger] f.references[k] == scoped(f.scopes, r)
}

pub(crate) proof fn is_reported(
    f: FileFactsView,
    references: Seq<ReferenceView>,
    r: ReferenceView,
)
    requires
        f.references == all_scoped(f.scopes, references),
        references.contains(r),
    ensures
        reported(f, r),
{
    let k = choose|k: int| 0 <= k < references.len() && references[k] == r;
    assert(f.references[k] == scoped(f.scopes, r));
}

pub(crate) proof fn in_either<T>(before: Seq<T>, behind: Seq<T>, x: T)
    ensures
        before.contains(x) || behind.contains(x) ==> (before + behind).contains(x),
{
    let all = before + behind;
    if before.contains(x) {
        let k = choose|k: int| 0 <= k < before.len() && before[k] == x;
        assert(all[k] == x);
    } else if behind.contains(x) {
        let k = choose|k: int| 0 <= k < behind.len() && behind[k] == x;
        assert(all[before.len() + k] == x);
    }
}

pub(crate) proof fn starts_with<T>(all: Seq<T>, first: Seq<T>, x: T)
    requires
        all.len() >= first.len(),
        forall|k: int| 0 <= k < first.len() ==> #[trigger] all[k] == first[k],
        first.contains(x),
    ensures
        all.contains(x),
{
    let k = choose|k: int| 0 <= k < first.len() && first[k] == x;
    assert(all[k] == x);
}

proof fn innermost_is_last(scopes: Seq<Scope>, n: int, byte: int)
    requires
        0 <= n <= scopes.len() <= usize::MAX,
    ensures
        match innermost_of(scopes, n, byte) {
            Some(id) => id < n && holds(scopes[id as int], byte) && forall|k: int|
                id < k < n ==> !holds(#[trigger] scopes[k], byte),
            None => forall|k: int| 0 <= k < n ==> !holds(#[trigger] scopes[k], byte),
        },
    decreases n,
{
    if n > 0 {
        innermost_is_last(scopes, n - 1, byte);
    }
}

pub(crate) proof fn home_is_innermost(scopes: Seq<Scope>, byte: int)
    requires
        scopes.len() <= usize::MAX,
    ensures
        is_innermost(scopes, byte, home_scope(scopes, byte)),
{
    innermost_is_last(scopes, scopes.len() as int, byte);
    let id = home_scope(scopes, byte);
    assert forall|k: int| id < k < scopes.len() implies !((#[trigger] scopes[k]).span.start <= byte
        < scopes[k].span.end) by {
        assert(!holds(scopes[k], byte));
    }
}

pub(crate) proof fn holder_is_found(scopes: Seq<Scope>, byte: int, k: int)
    requires
        scopes.len() <= usize::MAX,
        0 <= k < scopes.len(),
        scopes[k].span.start <= byte < scopes[k].span.end,
    ensures
        innermost(scopes, byte) is Some,
{
    innermost_is_last(scopes, scopes.len() as int, byte);
    assert(holds(scopes[k], byte));
}

pub(crate) proof fn file_level_is_outside(scopes: Seq<Scope>, byte: int)
    requires
        scopes.len() <= usize::MAX,
        crate::extract::at_file_level(scopes, byte),
    ensures
        outside_code(scopes, byte),
{
    innermost_is_last(scopes, scopes.len() as int, byte);
    assert forall|k: int| 0 < k < scopes.len() implies !((#[trigger] scopes[k]).span.start <= byte
        < scopes[k].span.end) by {
        assert(!holds(scopes[k], byte));
    }
}

pub(crate) proof fn local_is_bound(
    f: FileFactsView,
    name: Seq<char>,
    byte: int,
    kind: BindingKind,
    declared_type: Option<Seq<char>>,
)
    requires
        f.scopes.len() <= usize::MAX,
        f.bindings.contains(local_binding(f.scopes, name, byte, kind, declared_type)),
    ensures
        binds(f, name, byte, kind),
        declared_type matches Some(ty) ==> binds_as(f, name, byte, kind, ty),
{
    home_is_innermost(f.scopes, byte);
}

proof fn first_stands_in_field(t: Syntax, lo: int, hi: int, field: Seq<char>)
    ensures
        t.first_in_field(lo, hi, field) matches Some(c) ==> t.in_field(c, field),
    decreases hi - lo,
{
    if lo < hi && !t.in_field(lo, field) {
        first_stands_in_field(t, t.next(lo, hi), hi, field);
    }
}

pub(crate) proof fn child_stands_in_field(t: Syntax, i: int, field: Seq<char>)
    ensures
        t.child(i, field) matches Some(c) ==> t.in_field(c, field),
{
    first_stands_in_field(t, i + 1, t.after(i), field);
}

pub(crate) proof fn reached_is_behind(t: Syntax, lo: int, hi: int, c: int)
    requires
        t.reaches(lo, hi, c),
    ensures
        lo <= c < hi,
    decreases hi - lo,
{
    if lo != c {
        reached_is_behind(t, t.next(lo, hi), hi, c);
    }
}

pub(crate) proof fn opens_scope_stays(
    before: Seq<Scope>,
    after: Seq<Scope>,
    from: int,
    low: int,
    t: Syntax,
    j: int,
    kind: ScopeKind,
    parent: ScopeId,
    outer: Option<int>,
)
    requires
        extends(after, before),
        0 <= low <= from,
        opens_scope(before, from, t, j, kind, parent, outer),
    ensures
        opens_scope(after, low, t, j, kind, parent, outer),
{
    let id = choose|id: int|
        from <= id < before.len() && (#[trigger] before[id]).kind == kind && before[id].span.start
            == t.start(j) as usize && before[id].span.end == t.end(j) as usize && match outer {
            None => before[id].parent == Some(parent),
            Some(a) => before[id].parent matches Some(p) && from <= p < before.len()
                && before[p as int].span.start == t.start(a) as usize && before[p as int].span.end
                == t.end(a) as usize,
        };
    assert(after[id] == before[id]);
    if let Some(a) = outer {
        let p = before[id].parent->0;
        assert(after[p as int] == before[p as int]);
    }
}

/// A scope inside that of node `i` is one around it seen from there.
pub(crate) proof fn scope_is_within(
    scopes: Seq<Scope>,
    t: Syntax,
    i: int,
    j: int,
    kind: ScopeKind,
    id: ScopeId,
    parent: ScopeId,
    inner: Option<int>,
    outer: Option<int>,
)
    requires
        id < scopes.len(),
        scopes[id as int].span.start == t.start(i) as usize,
        scopes[id as int].span.end == t.end(i) as usize,
        opens_scope(scopes, id + 1, t, j, kind, id, inner),
        inner is None ==> outer == Some(i),
        inner is Some ==> inner == outer,
    ensures
        opens_scope(scopes, id as int, t, j, kind, parent, outer),
{
    let k = choose|k: int|
        id + 1 <= k < scopes.len() && (#[trigger] scopes[k]).kind == kind && scopes[k].span.start
            == t.start(j) as usize && scopes[k].span.end == t.end(j) as usize && match inner {
            None => scopes[k].parent == Some(id),
            Some(a) => scopes[k].parent matches Some(p) && id + 1 <= p < scopes.len()
                && scopes[p as int].span.start == t.start(a) as usize && scopes[p as int].span.end
                == t.end(a) as usize,
        };
    assert(scopes[k].kind == kind);
}

/// What starts before a sibling ends before it.
pub(crate) proof fn earlier_ends_before(t: Syntax, lo: int, hi: int, b: int, k: int)
    requires
        t.nested(),
        t.closed_range(lo, hi),
        t.reaches(lo, hi, b),
        lo <= k < b,
    ensures
        t.after(k) <= b,
    decreases hi - lo,
{
    let next = t.next(lo, hi);
    if lo != b {
        reached_is_behind(t, next, hi, b);
        if k >= next {
            earlier_ends_before(t, next, hi, b, k);
        }
    }
}

// ── Names and calls ──────────────────────────────────────────────────────────

/// What stands between two quotes is what is left without them.
pub proof fn quotes_are_taken_off(quote: Seq<char>, inner: Seq<char>)
    ensures
        unquoted_by(quote + inner + quote, quote) == Some(inner),
{
    let text = quote + inner + quote;
    let rest = inner + quote;
    assert(text.subrange(0, quote.len() as int) =~= quote);
    assert(text.subrange(quote.len() as int, text.len() as int) =~= rest);
    assert(rest.subrange(rest.len() - quote.len(), rest.len() as int) =~= quote);
    assert(rest.subrange(0, rest.len() - quote.len()) =~= inner);
}

proof fn last_index_is_last(text: Seq<char>, c: char, end: int)
    requires
        0 <= end <= text.len(),
    ensures
        -1 <= last_index(text, c, end) < end || (end == 0 && last_index(text, c, end) == -1),
        last_index(text, c, end) >= 0 ==> text[last_index(text, c, end)] == c,
        forall|k: int| last_index(text, c, end) < k < end ==> text[k] != c,
    decreases end,
{
    if end > 0 && text[end - 1] != c {
        last_index_is_last(text, c, end - 1);
    }
}

pub(crate) proof fn last_index_tells(text: Seq<char>, c: char)
    ensures
        last_index(text, c, text.len() as int) >= 0 <==> text.contains(c),
{
    last_index_is_last(text, c, text.len() as int);
    if text.contains(c) {
        let k = choose|k: int| 0 <= k < text.len() && text[k] == c;
        assert(text[k] == c);
    }
}

/// The last piece of a text stands behind the last separator, and what is before
/// it before that.
pub proof fn last_piece_is_behind(before: Seq<char>, c: char, piece: Seq<char>)
    requires
        !piece.contains(c),
    ensures
        after_last(before + seq![c] + piece, c) == piece,
        before_last(before + seq![c] + piece, c) == before,
{
    let text = before + seq![c] + piece;
    let at = last_index(text, c, text.len() as int);
    last_index_is_last(text, c, text.len() as int);
    assert(text[before.len() as int] == c);
    if at > before.len() {
        assert(piece[at - before.len() - 1] == c);
    }
    assert(text.subrange(at + 1, text.len() as int) =~= piece);
    assert(text.subrange(0, at) =~= before);
}

/// A text without a separator is one piece.
pub proof fn one_piece_is_whole(text: Seq<char>, c: char)
    requires
        !text.contains(c),
    ensures
        after_last(text, c) == text,
{
    last_index_is_last(text, c, text.len() as int);
    let at = last_index(text, c, text.len() as int);
    if at >= 0 {
        assert(text.contains(text[at]));
    }
    assert(text.subrange(0, text.len() as int) =~= text);
}

/// A name of three bytes is long enough to be reported, a shorter one is not.
pub proof fn three_bytes_are_enough(name: Seq<char>)
    ensures
        crate::extract::reportable(name) == long_enough(name),
        MIN_REF_LEN == 3,
{
}

} // verus!
