//! What the facts of a file tell of its names as a whole.

use crate::extract::{
    definition_binding, definitions_bound, holds, import_binding, imports_bound, imports_bound_of,
    innermost_is_last,
};
use crate::graph::types::{
    BindingKind, BindingTargetView, BindingView, FileFactsView, RefRole, ReferenceView, Scope,
    SymbolView,
};
use crate::laws::is_local;
use super::{home_is_innermost, is_innermost};
use vstd::prelude::*;

verus! {

/// Whether a reference has the last scope that holds its place, and none where no
/// scope does.
pub open spec fn is_scoped(scopes: Seq<Scope>, r: ReferenceView) -> bool {
    match r.scope {
        Some(id) => id < scopes.len() && scopes[id as int].span.start <= r.occ.byte
            < scopes[id as int].span.end && is_innermost(scopes, r.occ.byte, id),
        None => forall|k: int|
            0 <= k < scopes.len() ==> !((#[trigger] scopes[k]).span.start <= r.occ.byte
                < scopes[k].span.end),
    }
}

/// Whether a file binds a definition in the scope of the file as a whole.
pub open spec fn binds_definition(f: FileFactsView, s: SymbolView) -> bool {
    exists|k: int|
        0 <= k < f.bindings.len() && (#[trigger] f.bindings[k]).name == s.name && f.bindings[k].kind
            == BindingKind::Definition && f.bindings[k].target == BindingTargetView::Def(s.id)
            && f.bindings[k].scope == 0 && f.bindings[k].intro == 0
}

/// Whether a file binds an imported name in the innermost scope at its place.
pub open spec fn binds_import(f: FileFactsView, r: ReferenceView) -> bool {
    exists|k: int|
        0 <= k < f.bindings.len() && (#[trigger] f.bindings[k]).name == r.name && f.bindings[k].kind
            == BindingKind::Import && f.bindings[k].target == BindingTargetView::Import
            && f.bindings[k].intro == r.occ.byte && is_innermost(
            f.scopes,
            r.occ.byte,
            f.bindings[k].scope,
        )
}

/// Whether a name is bound to a definition or to an import of the file, or else to
/// itself, in the innermost scope at its place.
pub open spec fn has_origin(f: FileFactsView, b: BindingView) -> bool {
    match b.kind {
        BindingKind::Definition => exists|k: int|
            0 <= k < f.symbols.len() && (#[trigger] f.symbols[k]).name == b.name && b.target
                == BindingTargetView::Def(f.symbols[k].id) && b.scope == 0,
        BindingKind::Import => exists|k: int|
            0 <= k < f.references.len() && (#[trigger] f.references[k]).name == b.name
                && f.references[k].role == RefRole::Import && f.references[k].occ.byte == b.intro
                && b.target == BindingTargetView::Import,
        _ => b.target == BindingTargetView::Local && is_innermost(f.scopes, b.intro, b.scope),
    }
}

pub(crate) proof fn place_is_scoped(scopes: Seq<Scope>, r: ReferenceView)
    requires
        scopes.len() <= usize::MAX,
        r.scope == crate::extract::innermost(scopes, r.occ.byte),
    ensures
        is_scoped(scopes, r),
{
    innermost_is_last(scopes, scopes.len() as int, r.occ.byte);
    home_is_innermost(scopes, r.occ.byte);
    assert forall|k: int| r.scope is None && 0 <= k < scopes.len() implies !((
    #[trigger] scopes[k]).span.start <= r.occ.byte < scopes[k].span.end) by {
        assert(!holds(scopes[k], r.occ.byte));
    }
}

proof fn import_is_bound(scopes: Seq<Scope>, references: Seq<ReferenceView>, n: int, k: int) -> (j:
    int)
    requires
        0 <= k < n <= references.len(),
        references[k].role == RefRole::Import,
    ensures
        0 <= j < imports_bound_of(scopes, references, n).len(),
        imports_bound_of(scopes, references, n)[j] == import_binding(scopes, references[k]),
    decreases n,
{
    let before = imports_bound_of(scopes, references, n - 1);
    if k < n - 1 {
        import_is_bound(scopes, references, n - 1, k)
    } else {
        before.len() as int
    }
}

proof fn bound_is_import(scopes: Seq<Scope>, references: Seq<ReferenceView>, n: int, j: int) -> (k:
    int)
    requires
        0 <= j < imports_bound_of(scopes, references, n).len(),
        n <= references.len(),
    ensures
        0 <= k < n,
        references[k].role == RefRole::Import,
        imports_bound_of(scopes, references, n)[j] == import_binding(scopes, references[k]),
    decreases n,
{
    let before = imports_bound_of(scopes, references, n - 1);
    if j < before.len() {
        bound_is_import(scopes, references, n - 1, j)
    } else {
        n - 1
    }
}

pub(crate) proof fn definition_is_bound(
    f: FileFactsView,
    locals: Seq<BindingView>,
    defs: Seq<SymbolView>,
    imported: Seq<BindingView>,
    k: int,
)
    requires
        0 <= k < defs.len(),
        f.bindings == locals + definitions_bound(defs) + imported,
    ensures
        binds_definition(f, defs[k]),
{
    let j = locals.len() + k;
    assert(definitions_bound(defs)[k] == definition_binding(defs[k]));
    assert(f.bindings[j] == definitions_bound(defs)[k]);
}

pub(crate) proof fn imported_is_bound(
    f: FileFactsView,
    locals: Seq<BindingView>,
    defs: Seq<SymbolView>,
    k: int,
)
    requires
        0 <= k < f.references.len(),
        f.references[k].role == RefRole::Import,
        f.scopes.len() <= usize::MAX,
        f.bindings == locals + definitions_bound(defs) + imports_bound(f.scopes, f.references),
    ensures
        binds_import(f, f.references[k]),
{
    let i = import_is_bound(f.scopes, f.references, f.references.len() as int, k);
    home_is_innermost(f.scopes, f.references[k].occ.byte);
    let j = locals.len() + defs.len() + i;
    assert(f.bindings[j] == imports_bound(f.scopes, f.references)[i]);
}

pub(crate) proof fn bound_has_origin(
    f: FileFactsView,
    locals: Seq<BindingView>,
    defs: Seq<SymbolView>,
    imported: Seq<BindingView>,
    j: int,
)
    requires
        0 <= j < f.bindings.len(),
        f.scopes.len() <= usize::MAX,
        forall|k: int| 0 <= k < locals.len() ==> is_local(f.scopes, #[trigger] locals[k]),
        f.symbols.len() >= defs.len(),
        forall|k: int| 0 <= k < defs.len() ==> #[trigger] f.symbols[k] == defs[k],
        imported == imports_bound(f.scopes, f.references) || imported.len() == 0,
        f.bindings == locals + definitions_bound(defs) + imported,
    ensures
        has_origin(f, f.bindings[j]),
{
    let b = f.bindings[j];
    if j < locals.len() {
        assert(b == locals[j]);
        home_is_innermost(f.scopes, b.intro);
    } else if j < locals.len() + defs.len() {
        let k = j - locals.len();
        assert(b == definition_binding(defs[k]));
        assert(f.symbols[k] == defs[k]);
    } else {
        let i = j - locals.len() - defs.len();
        assert(b == imported[i]);
        let k = bound_is_import(f.scopes, f.references, f.references.len() as int, i);
        assert(f.references[k].name == b.name);
    }
}

} // verus!
