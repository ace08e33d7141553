//! What holds of the facts of C++ files.

use crate::extract::{is_section, reference_at, reportable, Ctx};
use crate::extract::cpp::{
    access, aggregate_at, aggregate_kind, bases_in, bindings_at, bindings_in, class_bases,
    declaration_parts_in, declarator_params, declarators_in, declared, defs_at, defs_in,
    function_declarator, holds_types, in_code, inherits_at, inherits_in, inner_namespaces,
    introduced, is_templated, leaf_name, leaves_at, local_at, member_at, member_declarators_in,
    member_symbols, members_in, namespaces_of, not_read, own_type_refs, params_in, reads_at,
    reads_in, reads_in_document_order, reads_of_nodes, references_of, stem_of, template_args_in,
    template_lists_in, templated_in, templated_members_in, type_refs_at, type_refs_in,
    typed_aggregate, typed_name, typed_place, typedefs_in, unpacked, unpacked_in, writes_at,
    writes_in,
};
use crate::graph::types::{
    BindingKind, BindingView, RefRole, ReferenceView, Scope, SymbolKind, SymbolView, TypeRefContext,
    Visibility,
};
use crate::items::{in_order_all, in_order_each};
use crate::parse::CaptureView;
use crate::symbol::{namespace_steps, DescriptorView};
use crate::syntax::{field_is_child, group_child_bounds, Syntax};
use crate::text::{other_suffix, own_suffix};
use super::{all_fit, belongs, calls_qualified_fit, identifiers_apart, is_local, starts_at};
use vstd::prelude::*;

verus! {

broadcast use group_child_bounds;

// ── Definitions ──────────────────────────────────────────────────────────────

/// Whether a symbol is one that a C++ file can define under the steps `prefix`.
pub open spec fn is_defined(c: Ctx, prefix: Seq<DescriptorView>, s: SymbolView) -> bool {
    &&& belongs(c, prefix, s)
    &&& s.visibility == Visibility::Public || s.visibility == Visibility::Private
        || s.visibility == Visibility::Protected
    &&& starts_at(s, "main"@)
}

/// Whether all symbols are.
pub open spec fn all_defined(
    c: Ctx,
    prefix: Seq<DescriptorView>,
    symbols: Seq<SymbolView>,
) -> bool {
    forall|k: int| 0 <= k < symbols.len() ==> is_defined(c, prefix, #[trigger] symbols[k])
}

proof fn member_declarators_in_defined(
    c: Ctx,
    prefix: Seq<DescriptorView>,
    visibility: Visibility,
    owner: int,
    lo: int,
    hi: int,
)
    requires
        visibility == Visibility::Public || visibility == Visibility::Private || visibility
            == Visibility::Protected,
    ensures
        all_defined(c, prefix, member_declarators_in(c, prefix, visibility, owner, lo, hi)),
    decreases hi - lo,
{
    if lo < hi {
        member_declarators_in_defined(c, prefix, visibility, owner, c.tree.next(lo, hi), hi);
    }
}

proof fn member_symbols_defined(c: Ctx, prefix: Seq<DescriptorView>, visibility: Visibility, i: int)
    requires
        visibility == Visibility::Public || visibility == Visibility::Private || visibility
            == Visibility::Protected,
    ensures
        all_defined(c, prefix, member_symbols(c, prefix, visibility, i)),
{
    let t = c.tree;
    if t.kind(i) == "function_definition"@ || holds_types(t, i) {
        member_declarators_in_defined(c, prefix, visibility, i, i + 1, t.after(i));
    }
}

proof fn aggregate_at_defined(c: Ctx, ns: Seq<Seq<char>>, visibility: Visibility, i: int)
    requires
        visibility == Visibility::Public || visibility == Visibility::Private || visibility
            == Visibility::Protected,
    ensures
        all_defined(c, namespace_steps(ns), aggregate_at(c, ns, visibility, i)),
    decreases c.tree.left(i), 0nat,
{
    let t = c.tree;
    if t.has(i) {
        match (aggregate_kind(t, i), t.child(i, "body"@), t.child(i, "name"@)) {
            (Some((kind, default)), Some(body), Some(n)) => {
                if let Some(name) = leaf_name(t, n) {
                    if kind != SymbolKind::Enum {
                        members_in_defined(c, ns, name, default, body + 1, t.after(body));
                    }
                }
            },
            _ => {},
        }
    }
}

proof fn members_in_defined(
    c: Ctx,
    ns: Seq<Seq<char>>,
    name: Seq<char>,
    visibility: Visibility,
    lo: int,
    hi: int,
)
    requires
        visibility == Visibility::Public || visibility == Visibility::Private || visibility
            == Visibility::Protected,
    ensures
        all_defined(c, namespace_steps(ns), members_in(c, ns, name, visibility, lo, hi)),
    decreases c.tree.left(lo), 2nat,
{
    let t = c.tree;
    if lo < hi && t.has(lo) {
        if t.kind(lo) == "access_specifier"@ {
            members_in_defined(c, ns, name, access(t, lo), t.next(lo, hi), hi);
        } else {
            member_at_defined(c, ns, name, visibility, lo);
            members_in_defined(c, ns, name, visibility, t.next(lo, hi), hi);
        }
    }
}

proof fn member_at_defined(
    c: Ctx,
    ns: Seq<Seq<char>>,
    name: Seq<char>,
    visibility: Visibility,
    i: int,
)
    requires
        visibility == Visibility::Public || visibility == Visibility::Private || visibility
            == Visibility::Protected,
    ensures
        all_defined(c, namespace_steps(ns), member_at(c, ns, name, visibility, i)),
    decreases c.tree.left(i), 1nat,
{
    let t = c.tree;
    let prefix = namespace_steps(ns) + seq![DescriptorView::Type(name)];
    if t.has(i) {
        if aggregate_kind(t, i) is Some {
            aggregate_at_defined(c, ns + seq![name], visibility, i);
        } else if t.kind(i) == "template_declaration"@ {
            templated_members_in_defined(c, ns, name, visibility, i + 1, t.after(i));
        } else if is_section(t, i) {
            members_in_defined(c, ns, name, visibility, i + 1, t.after(i));
        } else if holds_types(t, i) {
            if let Some(ty) = t.child(i, "type"@) {
                aggregate_at_defined(c, ns + seq![name], visibility, ty);
            }
            member_symbols_defined(c, prefix, visibility, i);
        } else {
            member_symbols_defined(c, prefix, visibility, i);
        }
    }
}

proof fn templated_members_in_defined(
    c: Ctx,
    ns: Seq<Seq<char>>,
    name: Seq<char>,
    visibility: Visibility,
    lo: int,
    hi: int,
)
    requires
        visibility == Visibility::Public || visibility == Visibility::Private || visibility
            == Visibility::Protected,
    ensures
        all_defined(c, namespace_steps(ns), templated_members_in(c, ns, name, visibility, lo, hi)),
    decreases c.tree.left(lo), 2nat,
{
    if lo < hi && c.tree.has(lo) {
        if is_templated(c.tree, lo) {
            member_at_defined(c, ns, name, visibility, lo);
        }
        templated_members_in_defined(c, ns, name, visibility, c.tree.next(lo, hi), hi);
    }
}

proof fn declarators_in_defined(c: Ctx, ns: Seq<Seq<char>>, owner: int, lo: int, hi: int)
    ensures
        all_defined(c, namespace_steps(ns), declarators_in(c, ns, owner, lo, hi)),
    decreases hi - lo,
{
    if lo < hi {
        declarators_in_defined(c, ns, owner, c.tree.next(lo, hi), hi);
    }
}

proof fn typedefs_in_defined(c: Ctx, ns: Seq<Seq<char>>, owner: int, lo: int, hi: int)
    ensures
        all_defined(c, namespace_steps(ns), typedefs_in(c, ns, owner, lo, hi)),
    decreases hi - lo,
{
    if lo < hi {
        typedefs_in_defined(c, ns, owner, c.tree.next(lo, hi), hi);
    }
}

proof fn typed_aggregate_defined(c: Ctx, ns: Seq<Seq<char>>, i: int)
    ensures
        all_defined(c, namespace_steps(ns), typed_aggregate(c, ns, i)),
{
    if let Some(ty) = c.tree.child(i, "type"@) {
        aggregate_at_defined(c, ns, Visibility::Public, ty);
    }
}

proof fn defs_at_defined(c: Ctx, ns: Seq<Seq<char>>, i: int)
    ensures
        all_defined(c, namespace_steps(ns), defs_at(c, ns, i)),
    decreases c.tree.left(i), 2nat,
{
    let t = c.tree;
    let kind = t.kind(i);
    if t.has(i) {
        if is_section(t, i) {
            definitions_belong(c, ns, i + 1, t.after(i));
        } else if kind == "namespace_definition"@ {
            if let Some(body) = t.child(i, "body"@) {
                definitions_belong(c, inner_namespaces(t, ns, i), body + 1, t.after(body));
            }
        } else if kind != "function_definition"@ {
            if kind == "declaration"@ {
                typed_aggregate_defined(c, ns, i);
                declarators_in_defined(c, ns, i, i + 1, t.after(i));
            } else if aggregate_kind(t, i) is Some {
                aggregate_at_defined(c, ns, Visibility::Public, i);
            } else if kind == "type_definition"@ {
                typed_aggregate_defined(c, ns, i);
                typedefs_in_defined(c, ns, i, i + 1, t.after(i));
            } else if kind != "alias_declaration"@ && kind == "template_declaration"@ {
                templated_in_defined(c, ns, i + 1, t.after(i));
            }
        }
    }
}

/// Each definition of a C++ file names the language and the file, extends the
/// namespaces `ns`, has an identity that ends with its name, is public, private
/// or protected, and is where the program starts only if that name is `main`.
pub proof fn definitions_belong(c: Ctx, ns: Seq<Seq<char>>, lo: int, hi: int)
    ensures
        all_defined(c, namespace_steps(ns), defs_in(c, ns, lo, hi)),
    decreases c.tree.left(lo), 3nat,
{
    if lo < hi && c.tree.has(lo) {
        defs_at_defined(c, ns, lo);
        definitions_belong(c, ns, c.tree.next(lo, hi), hi);
    }
}

proof fn templated_in_defined(c: Ctx, ns: Seq<Seq<char>>, lo: int, hi: int)
    ensures
        all_defined(c, namespace_steps(ns), templated_in(c, ns, lo, hi)),
    decreases c.tree.left(lo), 3nat,
{
    if lo < hi && c.tree.has(lo) {
        if is_templated(c.tree, lo) {
            defs_at_defined(c, ns, lo);
        }
        templated_in_defined(c, ns, c.tree.next(lo, hi), hi);
    }
}

// ── References ───────────────────────────────────────────────────────────────

proof fn reads_at_fit(t: Syntax, file: Seq<char>, i: int)
    ensures
        all_fit(file, reads_at(t, file, i)),
    decreases t.left(i), 0nat,
{
    if t.has(i) && t.kind(i) != "identifier"@ {
        reads_in_fit(t, file, i + 1, t.after(i));
    }
}

proof fn reads_in_fit(t: Syntax, file: Seq<char>, lo: int, hi: int)
    ensures
        all_fit(file, reads_in(t, file, lo, hi)),
    decreases t.left(lo), 1nat,
{
    if lo < hi && t.has(lo) {
        reads_at_fit(t, file, lo);
        reads_in_fit(t, file, t.next(lo, hi), hi);
    }
}

proof fn writes_at_fit(t: Syntax, file: Seq<char>, i: int)
    ensures
        all_fit(file, writes_at(t, file, i)),
    decreases t.left(i), 0nat,
{
    if t.has(i) {
        writes_in_fit(t, file, i + 1, t.after(i));
    }
}

proof fn writes_in_fit(t: Syntax, file: Seq<char>, lo: int, hi: int)
    ensures
        all_fit(file, writes_in(t, file, lo, hi)),
    decreases t.left(lo), 1nat,
{
    if lo < hi && t.has(lo) {
        writes_at_fit(t, file, lo);
        writes_in_fit(t, file, t.next(lo, hi), hi);
    }
}

proof fn leaves_at_fit(t: Syntax, file: Seq<char>, ctx: TypeRefContext, i: int)
    ensures
        all_fit(file, leaves_at(t, file, ctx, i)),
    decreases t.left(i), 0nat,
{
    let kind = t.kind(i);
    if t.has(i) && kind != "type_identifier"@ {
        if kind == "qualified_identifier"@ {
            if let Some(name) = t.child(i, "name"@) {
                leaves_at_fit(t, file, ctx, name);
            }
        } else if kind == "template_type"@ {
            template_lists_in_fit(t, file, i + 1, t.after(i));
        }
    }
}

proof fn template_args_in_fit(t: Syntax, file: Seq<char>, lo: int, hi: int)
    ensures
        all_fit(file, template_args_in(t, file, lo, hi)),
    decreases t.left(lo), 1nat,
{
    if lo < hi && t.has(lo) {
        if t.kind(lo) == "type_descriptor"@ {
            if let Some(ty) = t.child(lo, "type"@) {
                leaves_at_fit(t, file, TypeRefContext::GenericArg, ty);
            }
        } else if t.kind(lo) == "type_identifier"@ || t.kind(lo) == "qualified_identifier"@
            || t.kind(lo) == "template_type"@ {
            leaves_at_fit(t, file, TypeRefContext::GenericArg, lo);
        }
        template_args_in_fit(t, file, t.next(lo, hi), hi);
    }
}

proof fn template_lists_in_fit(t: Syntax, file: Seq<char>, lo: int, hi: int)
    ensures
        all_fit(file, template_lists_in(t, file, lo, hi)),
    decreases t.left(lo), 1nat,
{
    if lo < hi && t.has(lo) {
        if t.kind(lo) == "template_argument_list"@ {
            template_args_in_fit(t, file, lo + 1, t.after(lo));
        }
        template_lists_in_fit(t, file, t.next(lo, hi), hi);
    }
}

proof fn own_type_refs_fit(t: Syntax, file: Seq<char>, i: int)
    ensures
        all_fit(file, own_type_refs(t, file, i)),
{
    match (typed_place(t, i), t.child(i, "type"@)) {
        (Some(ctx), Some(ty)) => {
            leaves_at_fit(t, file, ctx, ty);
        },
        _ => {},
    }
}

proof fn type_refs_at_fit(t: Syntax, file: Seq<char>, i: int)
    ensures
        all_fit(file, type_refs_at(t, file, i)),
    decreases t.left(i), 0nat,
{
    if t.has(i) {
        own_type_refs_fit(t, file, i);
        type_refs_in_fit(t, file, i + 1, t.after(i));
    }
}

proof fn type_refs_in_fit(t: Syntax, file: Seq<char>, lo: int, hi: int)
    ensures
        all_fit(file, type_refs_in(t, file, lo, hi)),
    decreases t.left(lo), 1nat,
{
    if lo < hi && t.has(lo) {
        type_refs_at_fit(t, file, lo);
        type_refs_in_fit(t, file, t.next(lo, hi), hi);
    }
}

proof fn bases_in_fit(t: Syntax, file: Seq<char>, lo: int, hi: int)
    ensures
        all_fit(file, bases_in(t, file, lo, hi)),
    decreases hi - lo,
{
    if lo < hi {
        bases_in_fit(t, file, t.next(lo, hi), hi);
    }
}

proof fn class_bases_fit(t: Syntax, file: Seq<char>, i: int)
    ensures
        all_fit(file, class_bases(t, file, i)),
{
    if let Some(clause) = t.child_of_kind(i, "base_class_clause"@) {
        if t.kind(i) == "class_specifier"@ || t.kind(i) == "struct_specifier"@ {
            bases_in_fit(t, file, clause + 1, t.after(clause));
        }
    }
}

proof fn inherits_at_fit(t: Syntax, file: Seq<char>, i: int)
    ensures
        all_fit(file, inherits_at(t, file, i)),
    decreases t.left(i), 0nat,
{
    if t.has(i) {
        class_bases_fit(t, file, i);
        inherits_in_fit(t, file, i + 1, t.after(i));
    }
}

proof fn inherits_in_fit(t: Syntax, file: Seq<char>, lo: int, hi: int)
    ensures
        all_fit(file, inherits_in(t, file, lo, hi)),
    decreases t.left(lo), 1nat,
{
    if lo < hi && t.has(lo) {
        inherits_at_fit(t, file, lo);
        inherits_in_fit(t, file, t.next(lo, hi), hi);
    }
}

/// Each reference of a C++ file stands in the file. A call, a read or a write has a
/// name that is long enough, a call on the object itself has no qualifier, and only
/// a type reference says where its type stands.
pub proof fn references_fit(
    t: Syntax,
    file: Seq<char>,
    found: Seq<Seq<CaptureView>>,
    on_self: Seq<Seq<CaptureView>>,
    on_receiver: Seq<Seq<CaptureView>>,
)
    ensures
        all_fit(file, references_of(t, file, found, on_self, on_receiver)),
{
    calls_qualified_fit(t.source, file, found, on_self, on_receiver);
    inherits_at_fit(t, file, 0);
    reads_at_fit(t, file, 0);
    writes_at_fit(t, file, 0);
    type_refs_at_fit(t, file, 0);
}

// ── Local names ──────────────────────────────────────────────────────────────

/// Whether names are bound in the innermost scopes at their places, those that are
/// no parameters in functions and blocks only.
pub open spec fn all_in_code(scopes: Seq<Scope>, bindings: Seq<BindingView>) -> bool {
    forall|k: int|
        0 <= k < bindings.len() ==> is_local(scopes, #[trigger] bindings[k]) && (bindings[k].kind
            == BindingKind::Local ==> in_code(scopes, bindings[k].intro))
}

proof fn unpacked_in_nested(t: Syntax, scopes: Seq<Scope>, lo: int, hi: int)
    ensures
        all_in_code(scopes, unpacked_in(t, scopes, lo, hi)),
    decreases hi - lo,
{
    if lo < hi {
        unpacked_in_nested(t, scopes, t.next(lo, hi), hi);
    }
}

proof fn local_at_nested(t: Syntax, scopes: Seq<Scope>, declared_type: Option<Seq<char>>, i: int)
    ensures
        all_in_code(scopes, local_at(t, scopes, declared_type, i)),
{
    match (unpacked(t, i), declared(t, i)) {
        (Some(list), _) => {
            unpacked_in_nested(t, scopes, list + 1, t.after(list));
        },
        (None, Some((name, _))) => {},
        _ => {},
    }
}

proof fn params_in_nested(t: Syntax, scopes: Seq<Scope>, lo: int, hi: int)
    ensures
        all_in_code(scopes, params_in(t, scopes, lo, hi)),
    decreases hi - lo,
{
    if lo < hi {
        params_in_nested(t, scopes, t.next(lo, hi), hi);
    }
}

proof fn declarator_params_nested(t: Syntax, scopes: Seq<Scope>, f: int)
    ensures
        all_in_code(scopes, declarator_params(t, scopes, f)),
{
    if let Some(params) = t.child(f, "parameters"@) {
        params_in_nested(t, scopes, params + 1, t.after(params));
    }
}

proof fn introduced_nested(t: Syntax, scopes: Seq<Scope>, i: int)
    ensures
        all_in_code(scopes, introduced(t, scopes, i)),
{
    if let Some(d) = t.child(i, "declarator"@) {
        if t.kind(i) == "function_definition"@ {
            if let Some(f) = function_declarator(t, d) {
                declarator_params_nested(t, scopes, f);
            }
        } else if t.kind(i) == "lambda_expression"@ {
            declarator_params_nested(t, scopes, d);
        } else if t.kind(i) == "for_range_loop"@ {
            local_at_nested(t, scopes, None, d);
        }
    }
}

/// Each local name of a C++ file is bound in the innermost scope at its place. One
/// that is no parameter is bound in a function or a block: neither what a namespace
/// or a type holds nor what the file as a whole holds is local.
pub proof fn locals_are_nested(t: Syntax, scopes: Seq<Scope>, i: int)
    ensures
        all_in_code(scopes, bindings_at(t, scopes, i)),
    decreases t.left(i), 0nat,
{
    if t.has(i) {
        if t.kind(i) == "declaration"@ {
            declaration_parts_in_nested(t, scopes, i, i + 1, t.after(i));
        } else {
            introduced_nested(t, scopes, i);
            bindings_in_nested(t, scopes, i + 1, t.after(i));
        }
    }
}

proof fn declaration_parts_in_nested(t: Syntax, scopes: Seq<Scope>, owner: int, lo: int, hi: int)
    ensures
        all_in_code(scopes, declaration_parts_in(t, scopes, owner, lo, hi)),
    decreases t.left(lo), 1nat,
{
    if lo < hi && t.has(lo) {
        if t.in_field(lo, "declarator"@) {
            local_at_nested(t, scopes, typed_name(t, owner), lo);
        }
        locals_are_nested(t, scopes, lo);
        declaration_parts_in_nested(t, scopes, owner, t.next(lo, hi), hi);
    }
}

proof fn bindings_in_nested(t: Syntax, scopes: Seq<Scope>, lo: int, hi: int)
    ensures
        all_in_code(scopes, bindings_in(t, scopes, lo, hi)),
    decreases t.left(lo), 1nat,
{
    if lo < hi && t.has(lo) {
        locals_are_nested(t, scopes, lo);
        bindings_in_nested(t, scopes, t.next(lo, hi), hi);
    }
}

// ── Paired files ─────────────────────────────────────────────────────────────

/// Whether a file of a C++ program can have the extension `extension`.
pub open spec fn is_extension(extension: Seq<char>) -> bool {
    extension == ".cc"@ || extension == ".cpp"@ || extension == ".cxx"@ || extension == ".hh"@
        || extension == ".hpp"@ || extension == ".hxx"@ || extension == ".c"@ || extension == ".h"@
}

proof fn stem_has_no_extension(stem: Seq<char>, extension: Seq<char>)
    requires
        is_extension(extension),
    ensures
        stem_of(stem + extension) == stem,
{
    reveal_strlit(".cc");
    reveal_strlit(".cpp");
    reveal_strlit(".cxx");
    reveal_strlit(".hh");
    reveal_strlit(".hpp");
    reveal_strlit(".hxx");
    reveal_strlit(".c");
    reveal_strlit(".h");
    own_suffix(stem, extension);
    if extension == ".cc"@ {
    } else if extension == ".cpp"@ {
        other_suffix(stem, ".cpp"@, ".cc"@, 1);
    } else if extension == ".cxx"@ {
        other_suffix(stem, ".cxx"@, ".cc"@, 1);
        other_suffix(stem, ".cxx"@, ".cpp"@, 1);
    } else if extension == ".hh"@ {
        other_suffix(stem, ".hh"@, ".cc"@, 1);
        other_suffix(stem, ".hh"@, ".cpp"@, 1);
        other_suffix(stem, ".hh"@, ".cxx"@, 1);
    } else if extension == ".hpp"@ {
        other_suffix(stem, ".hpp"@, ".cc"@, 1);
        other_suffix(stem, ".hpp"@, ".cpp"@, 3);
        other_suffix(stem, ".hpp"@, ".cxx"@, 1);
        other_suffix(stem, ".hpp"@, ".hh"@, 1);
    } else if extension == ".hxx"@ {
        other_suffix(stem, ".hxx"@, ".cc"@, 1);
        other_suffix(stem, ".hxx"@, ".cpp"@, 1);
        other_suffix(stem, ".hxx"@, ".cxx"@, 3);
        other_suffix(stem, ".hxx"@, ".hh"@, 1);
        other_suffix(stem, ".hxx"@, ".hpp"@, 1);
    } else if extension == ".c"@ {
        other_suffix(stem, ".c"@, ".cc"@, 2);
        other_suffix(stem, ".c"@, ".cpp"@, 1);
        other_suffix(stem, ".c"@, ".cxx"@, 1);
        other_suffix(stem, ".c"@, ".hh"@, 1);
        other_suffix(stem, ".c"@, ".hpp"@, 1);
        other_suffix(stem, ".c"@, ".hxx"@, 1);
    } else if extension == ".h"@ {
        other_suffix(stem, ".h"@, ".cc"@, 1);
        other_suffix(stem, ".h"@, ".cpp"@, 1);
        other_suffix(stem, ".h"@, ".cxx"@, 1);
        other_suffix(stem, ".h"@, ".hh"@, 2);
        other_suffix(stem, ".h"@, ".hpp"@, 1);
        other_suffix(stem, ".h"@, ".hxx"@, 1);
        other_suffix(stem, ".h"@, ".c"@, 1);
    }
}

/// A source file and the header with the same stem have the same namespaces.
pub proof fn paired_files_share_namespaces(stem: Seq<char>, a: Seq<char>, b: Seq<char>)
    requires
        is_extension(a),
        is_extension(b),
    ensures
        namespaces_of(stem + a) == namespaces_of(stem + b),
{
    stem_has_no_extension(stem, a);
    stem_has_no_extension(stem, b);
}

// ── Reads ────────────────────────────────────────────────────────────────────

/// Whether node `i` is an identifier that is long enough and stands where it is
/// read.
pub open spec fn is_read(t: Syntax, i: int) -> bool {
    t.kind(i) == "identifier"@ && reportable(t.text(i)) && !not_read(t, i)
}

/// Each identifier of a C++ file that is read is reported.
pub proof fn reads_are_complete(t: Syntax, file: Seq<char>, i: int)
    requires
        t.nested(),
        t.has(0),
        identifiers_apart(t),
        0 <= i < t.after(0),
        is_read(t, i),
    ensures
        reads_at(t, file, 0).contains(reference_at(t, file, i, t.text(i), RefRole::Read)),
{
    let items = reads_of_nodes(t, file);
    reads_in_document_order(t, file, 0);
    assert(items(i)[0] == reference_at(t, file, i, t.text(i), RefRole::Read));
    in_order_each(items, 0, t.after(0), i, 0);
}

/// Each read that is reported of a C++ file is an identifier that is read.
pub proof fn reads_are_sound(t: Syntax, file: Seq<char>, k: int)
    requires
        t.nested(),
        t.has(0),
        identifiers_apart(t),
        0 <= k < reads_at(t, file, 0).len(),
    ensures
        exists|i: int|
            0 <= i < t.after(0) && #[trigger] is_read(t, i) && reads_at(t, file, 0)[k]
                == reference_at(t, file, i, t.text(i), RefRole::Read),
{
    let items = reads_of_nodes(t, file);
    let is_one = |r: ReferenceView|
        exists|i: int|
            0 <= i < t.after(0) && #[trigger] is_read(t, i) && r == reference_at(
                t,
                file,
                i,
                t.text(i),
                RefRole::Read,
            );
    reads_in_document_order(t, file, 0);
    assert forall|i: int, k: int| 0 <= i < t.after(0) && 0 <= k < items(i).len() implies is_one(
        #[trigger] items(i)[k],
    ) by {
        assert(is_read(t, i));
    }
    in_order_all(items, 0, t.after(0), is_one);
    assert(is_one(reads_at(t, file, 0)[k]));
}

// ── Names that are reported once ─────────────────────────────────────────────

/// The name that a call in a C++ file calls is not read as well.
pub proof fn callee_is_not_read(t: Syntax, i: int)
    requires
        t.linked(),
        t.has(i),
        t.kind(i) == "call_expression"@,
    ensures
        t.child(i, "function"@) matches Some(callee) ==> not_read(t, callee),
{
    reveal_strlit("call_expression");
    reveal_strlit("qualified_identifier");
    reveal_strlit("function_declarator");
    reveal_strlit("pointer_declarator");
    reveal_strlit("array_declarator");
    reveal_strlit("init_declarator");
    reveal_strlit("function_definition");
    reveal_strlit("declaration");
    reveal_strlit("field_declaration");
    reveal_strlit("parameter_declaration");
    reveal_strlit("optional_parameter_declaration");
    reveal_strlit("variadic_parameter_declaration");
    reveal_strlit("for_range_loop");
    reveal_strlit("reference_declarator");
    reveal_strlit("attributed_declarator");
    reveal_strlit("parenthesized_declarator");
    reveal_strlit("variadic_declarator");
    reveal_strlit("structured_binding_declarator");
    reveal_strlit("field_expression");
    reveal_strlit("assignment_expression");
    assert("call_expression"@[0] != "init_declarator"@[0]);
    field_is_child(t, i, "function"@);
}

/// The name that an assignment in a C++ file writes is not read as well.
pub proof fn target_is_not_read(t: Syntax, i: int)
    requires
        t.linked(),
        t.has(i),
        t.kind(i) == "assignment_expression"@,
    ensures
        t.child(i, "left"@) matches Some(target) ==> not_read(t, target),
{
    reveal_strlit("call_expression");
    reveal_strlit("qualified_identifier");
    reveal_strlit("function_declarator");
    reveal_strlit("pointer_declarator");
    reveal_strlit("array_declarator");
    reveal_strlit("init_declarator");
    reveal_strlit("function_definition");
    reveal_strlit("declaration");
    reveal_strlit("field_declaration");
    reveal_strlit("parameter_declaration");
    reveal_strlit("optional_parameter_declaration");
    reveal_strlit("variadic_parameter_declaration");
    reveal_strlit("for_range_loop");
    reveal_strlit("reference_declarator");
    reveal_strlit("attributed_declarator");
    reveal_strlit("parenthesized_declarator");
    reveal_strlit("variadic_declarator");
    reveal_strlit("structured_binding_declarator");
    reveal_strlit("field_expression");
    reveal_strlit("assignment_expression");
    assert("assignment_expression"@[0] != "parameter_declaration"@[0]);
    assert("assignment_expression"@[1] != "attributed_declarator"@[1]);
    field_is_child(t, i, "left"@);
}

} // verus!
