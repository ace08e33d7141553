//! What holds of everything that is read from files.
//!
//! This module holds what the languages share; each language has a module of
//! its own.

use crate::extract::{
    at_file_level, call_of, calls, calls_marked, calls_of, calls_qualified, home_scope, match_from,
    receiver_marked, reportable, self_marked, Ctx,
};
use crate::graph::types::{
    BindingKind, BindingTargetView, BindingView, EntryPointView, RefRole, ReferenceView, Scope,
    SymbolView,
};
use crate::parse::CaptureView;
use crate::symbol::{namespace_steps, DescriptorView};
use crate::syntax::Syntax;
use vstd::prelude::*;

pub mod c;
pub mod cpp;
pub mod csharp;
pub mod dart;
pub mod go;
pub mod hcl;
pub mod java;
pub mod kotlin;
pub mod lua;
pub mod reports;

verus! {

// ── Definitions ──────────────────────────────────────────────────────────────

/// Whether a symbol belongs to a file and stands under the steps `prefix`: it
/// names the language and the file, and its identity extends those steps by at
/// least one, the last of which has its name.
pub open spec fn belongs(c: Ctx, prefix: Seq<DescriptorView>, s: SymbolView) -> bool {
    &&& s.lang == c.lang
    &&& s.occ.file == c.file
    &&& s.id.len() > prefix.len()
    &&& forall|k: int| 0 <= k < prefix.len() ==> #[trigger] s.id[k] == prefix[k]
    &&& s.id.last().name() == s.name
}

/// Whether the steps of a symbol's identity behind `prefix` are no namespaces.
pub open spec fn stands_in(prefix: Seq<DescriptorView>, s: SymbolView) -> bool {
    forall|k: int| prefix.len() <= k < s.id.len() ==> !(#[trigger] s.id[k] is Namespace)
}

/// Definitions under different namespaces have different identities.
pub proof fn namespaces_part_identities(
    c: Ctx,
    a: Seq<Seq<char>>,
    r: SymbolView,
    d: Ctx,
    b: Seq<Seq<char>>,
    s: SymbolView,
)
    requires
        belongs(c, namespace_steps(a), r),
        stands_in(namespace_steps(a), r),
        belongs(d, namespace_steps(b), s),
        stands_in(namespace_steps(b), s),
        a != b,
    ensures
        r.id != s.id,
{
    let x = namespace_steps(a);
    let y = namespace_steps(b);
    if r.id == s.id {
        if a.len() < b.len() {
            assert(s.id[a.len() as int] == y[a.len() as int]);
        } else if b.len() < a.len() {
            assert(r.id[b.len() as int] == x[b.len() as int]);
        } else {
            assert forall|k: int| 0 <= k < a.len() implies a[k] == b[k] by {
                assert(r.id[k] == x[k]);
                assert(s.id[k] == y[k]);
            }
            assert(a =~= b);
        }
    }
}

/// Whether a symbol is where the program starts only if its name is `name`.
pub open spec fn starts_at(s: SymbolView, name: Seq<char>) -> bool {
    forall|k: int|
        0 <= k < s.entry_points.len() && #[trigger] s.entry_points[k] == EntryPointView::Main
            ==> s.name == name
}

// ── References ───────────────────────────────────────────────────────────────

/// Whether a reference stands in the file, has a name that is long enough where it
/// is a call, a read or a write, has no qualifier where it is on the object itself,
/// and says where its type stands only where it is a type reference.
pub open spec fn fits(file: Seq<char>, r: ReferenceView) -> bool {
    &&& r.occ.file == file
    &&& (r.role == RefRole::Call || r.role == RefRole::Read || r.role == RefRole::Write)
        ==> reportable(r.name)
    &&& r.self_receiver ==> r.role == RefRole::Call && r.qualifier is None
    &&& r.type_ref_ctx is Some ==> r.role == RefRole::TypeRef
}

/// Whether all references do.
pub open spec fn all_fit(file: Seq<char>, references: Seq<ReferenceView>) -> bool {
    forall|k: int| 0 <= k < references.len() ==> fits(file, #[trigger] references[k])
}

/// Whether no identifier stands below another.
pub open spec fn identifiers_apart(t: Syntax) -> bool {
    forall|j: int, k: int|
        t.has(j) && t.kind(j) == "identifier"@ && j < k < #[trigger] t.after(j)
            ==> #[trigger] t.kind(k) != "identifier"@
}

proof fn calls_of_fit(
    source: Seq<char>,
    file: Seq<char>,
    found: Seq<Seq<CaptureView>>,
    n: int,
)
    ensures
        all_fit(file, calls_of(source, file, found, n)),
    decreases n,
{
    if n > 0 {
        calls_of_fit(source, file, found, n - 1);
    }
}

/// Each call of a file stands in it and has a name that is long enough.
pub proof fn calls_fit(source: Seq<char>, file: Seq<char>, found: Seq<Seq<CaptureView>>)
    ensures
        all_fit(file, calls(source, file, found)),
{
    calls_of_fit(source, file, found, found.len() as int);
}

/// Each call of a file stands in it and has a name that is long enough. One on the
/// object itself has no qualifier.
pub proof fn calls_marked_fit(
    source: Seq<char>,
    file: Seq<char>,
    found: Seq<Seq<CaptureView>>,
    on_self: Seq<Seq<CaptureView>>,
)
    ensures
        all_fit(file, calls_marked(source, file, found, on_self)),
{
    calls_fit(source, file, found);
    let plain = calls(source, file, found);
    assert forall|k: int| 0 <= k < plain.len() implies fits(
        file,
        #[trigger] calls_marked(source, file, found, on_self)[k],
    ) by {
        assert(fits(file, plain[k]));
    }
}

/// Each call of a file stands in it and has a name that is long enough. One on the
/// object itself has no qualifier.
pub proof fn calls_qualified_fit(
    source: Seq<char>,
    file: Seq<char>,
    found: Seq<Seq<CaptureView>>,
    on_self: Seq<Seq<CaptureView>>,
    on_receiver: Seq<Seq<CaptureView>>,
)
    ensures
        all_fit(file, calls_qualified(source, file, found, on_self, on_receiver)),
{
    calls_marked_fit(source, file, found, on_self);
    let marked = calls_marked(source, file, found, on_self);
    assert forall|k: int| 0 <= k < marked.len() implies fits(
        file,
        #[trigger] calls_qualified(source, file, found, on_self, on_receiver)[k],
    ) by {
        assert(fits(file, marked[k]));
    }
}

/// A call that the query on calls on the object itself reports at its place is
/// marked as such; every other call keeps the receiver that the query on calls
/// reports, or else has the one that the query on named receivers reports. No call
/// is lost or reported twice, and each keeps its name and its place.
pub proof fn marking_keeps_calls(
    source: Seq<char>,
    file: Seq<char>,
    found: Seq<Seq<CaptureView>>,
    on_self: Seq<Seq<CaptureView>>,
    on_receiver: Seq<Seq<CaptureView>>,
    k: int,
)
    requires
        0 <= k < calls(source, file, found).len(),
    ensures
        ({
            let before = calls(source, file, found);
            let after = calls_qualified(source, file, found, on_self, on_receiver);
            &&& after.len() == before.len()
            &&& after[k].name == before[k].name
            &&& after[k].role == RefRole::Call
            &&& after[k].occ == before[k].occ
            &&& after[k].self_receiver <==> match_from(on_self, 0, before[k].occ.byte) is Some
            &&& !after[k].self_receiver && before[k].qualifier is Some ==> after[k].qualifier
                == before[k].qualifier
        }),
{
    calls_are_calls(source, file, found, found.len() as int);
    let before = calls(source, file, found)[k];
    assert(calls_marked(source, file, found, on_self)[k] == self_marked(on_self, before));
    assert(calls_qualified(source, file, found, on_self, on_receiver)[k] == receiver_marked(
        source,
        on_receiver,
        self_marked(on_self, before),
    ));
}

proof fn calls_are_calls(
    source: Seq<char>,
    file: Seq<char>,
    found: Seq<Seq<CaptureView>>,
    n: int,
)
    ensures
        forall|k: int|
            0 <= k < calls_of(source, file, found, n).len() ==> {
                let r = #[trigger] calls_of(source, file, found, n)[k];
                r.role == RefRole::Call && !r.self_receiver
            },
    decreases n,
{
    if n > 0 {
        calls_are_calls(source, file, found, n - 1);
        let before = calls_of(source, file, found, n - 1);
        let last = call_of(source, file, found[n - 1]);
        assert forall|k: int| 0 <= k < calls_of(source, file, found, n).len() implies {
            let r = #[trigger] calls_of(source, file, found, n)[k];
            r.role == RefRole::Call && !r.self_receiver
        } by {
            if k < before.len() {
                assert(calls_of(source, file, found, n)[k] == before[k]);
            } else {
                assert(calls_of(source, file, found, n)[k] == last[k - before.len()]);
            }
        }
    }
}

// ── Local names ──────────────────────────────────────────────────────────────

/// Whether a name is a parameter or another local name, bound in the innermost
/// scope at its place.
pub open spec fn is_local(scopes: Seq<Scope>, b: BindingView) -> bool {
    &&& b.kind == BindingKind::Param || b.kind == BindingKind::Local
    &&& b.target == BindingTargetView::Local
    &&& b.scope == home_scope(scopes, b.intro)
}

/// Whether names are bound in the innermost scopes at their places, those that are
/// no parameters never in that of the file as a whole.
pub open spec fn all_nested(scopes: Seq<Scope>, bindings: Seq<BindingView>) -> bool {
    forall|k: int|
        0 <= k < bindings.len() ==> is_local(scopes, #[trigger] bindings[k]) && (bindings[k].kind
            == BindingKind::Local ==> !at_file_level(scopes, bindings[k].intro))
}

} // verus!
