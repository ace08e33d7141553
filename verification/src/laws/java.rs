//! What holds of the facts of Java files.

use crate::extract::{reference_at, reportable, Ctx};
use crate::extract::c::exports_of;
use crate::extract::java::{
    all_natives_in, args_in, bindings_at, bindings_in, clause_bases, declared_bases,
    entry_points_at, fields_in, imports_at, imports_in, inferred_in, inherits_at, inherits_in,
    introduced, is_method, lambda_params, leaves_at, leaves_in, listed_in, locals_in, mangled,
    members_in, natives_in, not_read, own_type_refs, package_parts, param_at, params_in, reads_at,
    reads_in, reads_in_document_order, reads_of_nodes, references_of, reported_type, routes_in,
    spread_names_in, symbols_in, type_kind, type_natives, type_refs_at, type_refs_in, type_symbols,
    writes_at, writes_in,
};
use crate::ffi::abi_of_name;
use crate::graph::types::{
    EntryPointView, FfiAbi, FfiExportView, RefRole, ReferenceView, Scope, SymbolKind, SymbolView,
    TypeRefContext, Visibility,
};
use crate::items::{in_order_all, in_order_each};
use crate::parse::CaptureView;
use crate::symbol::DescriptorView;
use crate::syntax::{field_is_child, group_child_bounds, Syntax};
use crate::text::bytes_at_least_chars;
use super::c::functions_are_exported;
use super::{
    all_fit, all_nested, belongs, calls_qualified_fit, identifiers_apart, stands_in, starts_at,
};
use vstd::prelude::*;

verus! {

broadcast use group_child_bounds;

// ── Definitions ──────────────────────────────────────────────────────────────

/// Whether a symbol is one that a Java file can define under the steps `prefix`.
pub open spec fn is_defined(c: Ctx, prefix: Seq<DescriptorView>, s: SymbolView) -> bool {
    &&& belongs(c, prefix, s)
    &&& s.visibility != Visibility::Unknown
    &&& stands_in(prefix, s)
    &&& starts_at(s, "main"@)
}

/// Whether all symbols are.
pub open spec fn all_defined(
    c: Ctx,
    prefix: Seq<DescriptorView>,
    symbols: Seq<SymbolView>,
) -> bool {
    forall|k: int| 0 <= k < symbols.len() ==> is_defined(c, prefix, #[trigger] symbols[k])
}

proof fn routes_are_routes(t: Syntax, lo: int, hi: int)
    ensures
        forall|k: int|
            0 <= k < routes_in(t, lo, hi).len() ==> #[trigger] routes_in(t, lo, hi)[k]
                is HttpRoute,
    decreases hi - lo,
{
    if lo < hi {
        routes_are_routes(t, t.next(lo, hi), hi);
    }
}

/// The program starts at methods named `main` only.
pub proof fn program_starts_at_main(t: Syntax, method_name: Option<Seq<char>>, i: int)
    ensures
        forall|k: int|
            0 <= k < entry_points_at(t, method_name, i).len() && #[trigger] entry_points_at(
                t,
                method_name,
                i,
            )[k] == EntryPointView::Main ==> method_name == Some("main"@),
{
    if let Some(m) = t.child_of_kind(i, "modifiers"@) {
        routes_are_routes(t, m + 1, t.after(m));
    }
}

proof fn fields_in_defined(
    c: Ctx,
    prefix: Seq<DescriptorView>,
    implicit: bool,
    owner: int,
    lo: int,
    hi: int,
)
    ensures
        all_defined(c, prefix, fields_in(c, prefix, implicit, owner, lo, hi)),
    decreases hi - lo,
{
    if lo < hi {
        fields_in_defined(c, prefix, implicit, owner, c.tree.next(lo, hi), hi);
    }
}

proof fn members_in_defined(c: Ctx, prefix: Seq<DescriptorView>, implicit: bool, lo: int, hi: int)
    ensures
        all_defined(c, prefix, members_in(c, prefix, implicit, lo, hi)),
    decreases c.tree.left(lo),
{
    program_starts_at_main(c.tree, c.tree.field_text(lo, "name"@), lo);
    let t = c.tree;
    if lo < hi && t.has(lo) {
        if t.kind(lo) == "enum_body_declarations"@ {
            members_in_defined(c, prefix, implicit, lo + 1, t.after(lo));
        } else if !(is_method(t, lo)) {
            if t.kind(lo) == "field_declaration"@ || t.kind(lo) == "constant_declaration"@ {
                fields_in_defined(c, prefix, implicit, lo, lo + 1, t.after(lo));
            }
        }
        members_in_defined(c, prefix, implicit, t.next(lo, hi), hi);
    }
}

proof fn type_symbols_defined(c: Ctx, prefix: Seq<DescriptorView>, i: int)
    ensures
        all_defined(c, prefix, type_symbols(c, prefix, i)),
{
    program_starts_at_main(c.tree, None, i);
    let t = c.tree;
    match (type_kind(t, i), t.field_text(i, "name"@)) {
        (Some(kind), Some(name)) => {
            if let Some(body) = t.child(i, "body"@) {
                members_in_defined(
                    c,
                    prefix + seq![DescriptorView::Type(name)],
                    kind == SymbolKind::Interface,
                    body + 1,
                    t.after(body),
                );
            }
        },
        _ => {},
    }
}

/// Each definition of a Java file names the language and the file, extends the
/// steps `prefix` without further namespaces, has an identity that ends with
/// its name, is of known visibility, and is where the program starts only if
/// that name is `main`.
pub proof fn definitions_belong(c: Ctx, prefix: Seq<DescriptorView>, lo: int, hi: int)
    ensures
        all_defined(c, prefix, symbols_in(c, prefix, lo, hi)),
    decreases hi - lo,
{
    if lo < hi {
        type_symbols_defined(c, prefix, lo);
        definitions_belong(c, prefix, c.tree.next(lo, hi), hi);
    }
}

// ── References ───────────────────────────────────────────────────────────────

/// The name of the function that implements a native method says so.
pub proof fn mangled_names_are_jni(ns: Seq<Seq<char>>, class: Seq<char>, method: Seq<char>)
    ensures
        abi_of_name(mangled(ns, class, method)) == Some(FfiAbi::Jni),
        reportable(mangled(ns, class, method)),
{
    let name = mangled(ns, class, method);
    reveal_strlit("Java_");
    bytes_at_least_chars(name);
    assert(name.subrange(0, 5) =~= "Java_"@);
}

proof fn listed_in_fit(t: Syntax, file: Seq<char>, lo: int, hi: int)
    ensures
        all_fit(file, listed_in(t, file, lo, hi)),
    decreases hi - lo,
{
    if lo < hi {
        listed_in_fit(t, file, t.next(lo, hi), hi);
    }
}

proof fn clause_bases_fit(t: Syntax, file: Seq<char>, i: int)
    ensures
        all_fit(file, clause_bases(t, file, i)),
{
    if let Some(list) = t.child_of_kind(i, "type_list"@) {
        listed_in_fit(t, file, list + 1, t.after(list));
    }
}

proof fn declared_bases_fit(t: Syntax, file: Seq<char>, i: int)
    ensures
        all_fit(file, declared_bases(t, file, i)),
{
    if t.kind(i) == "class_declaration"@ {
        if let Some(clause) = t.child(i, "interfaces"@) {
            clause_bases_fit(t, file, clause);
        }
    } else if t.kind(i) == "interface_declaration"@ {
        if let Some(clause) = t.child_of_kind(i, "extends_interfaces"@) {
            clause_bases_fit(t, file, clause);
        }
    }
}

proof fn inherits_at_fit(t: Syntax, file: Seq<char>, i: int)
    ensures
        all_fit(file, inherits_at(t, file, i)),
    decreases t.left(i), 0nat,
{
    if t.has(i) {
        declared_bases_fit(t, file, i);
        inherits_in_fit(t, file, i + 1, t.after(i));
    }
}

proof fn inherits_in_fit(t: Syntax, file: Seq<char>, lo: int, hi: int)
    ensures
        all_fit(file, inherits_in(t, file, lo, hi)),
    decreases t.left(lo), 1nat,
{
    if lo < hi && t.has(lo) {
        inherits_at_fit(t, file, lo);
        inherits_in_fit(t, file, t.next(lo, hi), hi);
    }
}

proof fn imports_at_fit(t: Syntax, file: Seq<char>, module: Seq<char>, i: int)
    ensures
        all_fit(file, imports_at(t, file, module, i)),
    decreases t.left(i), 0nat,
{
    if t.has(i) && t.kind(i) != "import_declaration"@ {
        imports_in_fit(t, file, module, i + 1, t.after(i));
    }
}

proof fn imports_in_fit(t: Syntax, file: Seq<char>, module: Seq<char>, lo: int, hi: int)
    ensures
        all_fit(file, imports_in(t, file, module, lo, hi)),
    decreases t.left(lo), 1nat,
{
    if lo < hi && t.has(lo) {
        imports_at_fit(t, file, module, lo);
        imports_in_fit(t, file, module, t.next(lo, hi), hi);
    }
}

proof fn natives_in_fit(
    t: Syntax,
    file: Seq<char>,
    ns: Seq<Seq<char>>,
    class: Seq<char>,
    lo: int,
    hi: int,
)
    ensures
        all_fit(file, natives_in(t, file, ns, class, lo, hi)),
    decreases t.left(lo),
{
    if let Some(n) = t.child(lo, "name"@) {
        mangled_names_are_jni(ns, class, t.text(n));
    }
    if lo < hi && t.has(lo) {
        if t.kind(lo) == "enum_body_declarations"@ {
            natives_in_fit(t, file, ns, class, lo + 1, t.after(lo));
        }
        natives_in_fit(t, file, ns, class, t.next(lo, hi), hi);
    }
}

proof fn type_natives_fit(t: Syntax, file: Seq<char>, ns: Seq<Seq<char>>, i: int)
    ensures
        all_fit(file, type_natives(t, file, ns, i)),
{
    if t.kind(i) == "class_declaration"@ || t.kind(i) == "interface_declaration"@
        || t.kind(i) == "enum_declaration"@ || t.kind(i) == "record_declaration"@ {
        match (t.field_text(i, "name"@), t.child(i, "body"@)) {
            (Some(class), Some(body)) => {
                natives_in_fit(t, file, ns, class, body + 1, t.after(body));
            },
            _ => {},
        }
    }
}

proof fn all_natives_in_fit(t: Syntax, file: Seq<char>, ns: Seq<Seq<char>>, lo: int, hi: int)
    ensures
        all_fit(file, all_natives_in(t, file, ns, lo, hi)),
    decreases hi - lo,
{
    if lo < hi {
        type_natives_fit(t, file, ns, lo);
        all_natives_in_fit(t, file, ns, t.next(lo, hi), hi);
    }
}

proof fn leaves_at_fit(t: Syntax, file: Seq<char>, ctx: TypeRefContext, i: int)
    ensures
        all_fit(file, leaves_at(t, file, ctx, i)),
    decreases t.left(i), 0nat,
{
    let kind = t.kind(i);
    if t.has(i) && kind != "type_identifier"@ {
        if kind == "generic_type"@ {
            if let Some(base) = t.named_child(i) {
                leaves_at_fit(t, file, ctx, base);
            }
            if let Some(args) = t.child_of_kind(i, "type_arguments"@) {
                args_in_fit(t, file, args + 1, t.after(args));
            }
        } else if kind != "scoped_type_identifier"@ && kind == "array_type"@ {
            if let Some(element) = t.child(i, "element"@) {
                leaves_at_fit(t, file, ctx, element);
            }
        }
    }
}

proof fn args_in_fit(t: Syntax, file: Seq<char>, lo: int, hi: int)
    ensures
        all_fit(file, args_in(t, file, lo, hi)),
    decreases t.left(lo), 2nat,
{
    if lo < hi && t.has(lo) {
        if t.named(lo) {
            if t.kind(lo) == "wildcard"@ {
                leaves_in_fit(t, file, TypeRefContext::GenericArg, lo + 1, t.after(lo));
            } else {
                leaves_at_fit(t, file, TypeRefContext::GenericArg, lo);
            }
        }
        args_in_fit(t, file, t.next(lo, hi), hi);
    }
}

proof fn leaves_in_fit(t: Syntax, file: Seq<char>, ctx: TypeRefContext, lo: int, hi: int)
    ensures
        all_fit(file, leaves_in(t, file, ctx, lo, hi)),
    decreases t.left(lo), 1nat,
{
    if lo < hi && t.has(lo) {
        if t.named(lo) {
            leaves_at_fit(t, file, ctx, lo);
        }
        leaves_in_fit(t, file, ctx, t.next(lo, hi), hi);
    }
}

proof fn own_type_refs_fit(t: Syntax, file: Seq<char>, i: int)
    ensures
        all_fit(file, own_type_refs(t, file, i)),
{
    if let Some((ty, ctx)) = reported_type(t, i) {
        leaves_at_fit(t, file, ctx, ty);
    }
}

proof fn type_refs_at_fit(t: Syntax, file: Seq<char>, i: int)
    ensures
        all_fit(file, type_refs_at(t, file, i)),
    decreases t.left(i), 0nat,
{
    if t.has(i) {
        own_type_refs_fit(t, file, i);
        type_refs_in_fit(t, file, i + 1, t.after(i));
    }
}

proof fn type_refs_in_fit(t: Syntax, file: Seq<char>, lo: int, hi: int)
    ensures
        all_fit(file, type_refs_in(t, file, lo, hi)),
    decreases t.left(lo), 1nat,
{
    if lo < hi && t.has(lo) {
        type_refs_at_fit(t, file, lo);
        type_refs_in_fit(t, file, t.next(lo, hi), hi);
    }
}

proof fn reads_at_fit(t: Syntax, file: Seq<char>, i: int)
    ensures
        all_fit(file, reads_at(t, file, i)),
    decreases t.left(i), 0nat,
{
    if t.has(i) && t.kind(i) != "identifier"@ {
        reads_in_fit(t, file, i + 1, t.after(i));
    }
}

proof fn reads_in_fit(t: Syntax, file: Seq<char>, lo: int, hi: int)
    ensures
        all_fit(file, reads_in(t, file, lo, hi)),
    decreases t.left(lo), 1nat,
{
    if lo < hi && t.has(lo) {
        reads_at_fit(t, file, lo);
        reads_in_fit(t, file, t.next(lo, hi), hi);
    }
}

proof fn writes_at_fit(t: Syntax, file: Seq<char>, i: int)
    ensures
        all_fit(file, writes_at(t, file, i)),
    decreases t.left(i), 0nat,
{
    if t.has(i) {
        writes_in_fit(t, file, i + 1, t.after(i));
    }
}

proof fn writes_in_fit(t: Syntax, file: Seq<char>, lo: int, hi: int)
    ensures
        all_fit(file, writes_in(t, file, lo, hi)),
    decreases t.left(lo), 1nat,
{
    if lo < hi && t.has(lo) {
        writes_at_fit(t, file, lo);
        writes_in_fit(t, file, t.next(lo, hi), hi);
    }
}

/// Each reference of a Java file stands in the file. A call, a read or a write has a
/// name that is long enough, a call on the object itself has no qualifier, and only
/// a type reference says where its type stands.
pub proof fn references_fit(
    t: Syntax,
    file: Seq<char>,
    module: Seq<char>,
    found: Seq<Seq<CaptureView>>,
    on_self: Seq<Seq<CaptureView>>,
    on_receiver: Seq<Seq<CaptureView>>,
)
    ensures
        all_fit(file, references_of(t, file, module, found, on_self, on_receiver)),
{
    calls_qualified_fit(t.source, file, found, on_self, on_receiver);
    inherits_at_fit(t, file, 0);
    imports_at_fit(t, file, module, 0);
    all_natives_in_fit(t, file, package_parts(t), 1, t.after(0));
    type_refs_at_fit(t, file, 0);
    reads_at_fit(t, file, 0);
    writes_at_fit(t, file, 0);
}

// ── Local names ──────────────────────────────────────────────────────────────

proof fn locals_in_nested(t: Syntax, scopes: Seq<Scope>, owner: int, lo: int, hi: int)
    ensures
        all_nested(scopes, locals_in(t, scopes, owner, lo, hi)),
    decreases hi - lo,
{
    if lo < hi {
        locals_in_nested(t, scopes, owner, t.next(lo, hi), hi);
    }
}

proof fn spread_names_in_nested(t: Syntax, scopes: Seq<Scope>, lo: int, hi: int)
    ensures
        all_nested(scopes, spread_names_in(t, scopes, lo, hi)),
    decreases hi - lo,
{
    if lo < hi {
        spread_names_in_nested(t, scopes, t.next(lo, hi), hi);
    }
}

proof fn param_at_nested(t: Syntax, scopes: Seq<Scope>, i: int)
    ensures
        all_nested(scopes, param_at(t, scopes, i)),
{
    if t.named(i) && t.kind(i) != "formal_parameter"@ && t.kind(i) == "spread_parameter"@ {
        spread_names_in_nested(t, scopes, i + 1, t.after(i));
    }
}

proof fn params_in_nested(t: Syntax, scopes: Seq<Scope>, lo: int, hi: int)
    ensures
        all_nested(scopes, params_in(t, scopes, lo, hi)),
    decreases hi - lo,
{
    if lo < hi {
        param_at_nested(t, scopes, lo);
        params_in_nested(t, scopes, t.next(lo, hi), hi);
    }
}

proof fn inferred_in_nested(t: Syntax, scopes: Seq<Scope>, lo: int, hi: int)
    ensures
        all_nested(scopes, inferred_in(t, scopes, lo, hi)),
    decreases hi - lo,
{
    if lo < hi {
        inferred_in_nested(t, scopes, t.next(lo, hi), hi);
    }
}

proof fn lambda_params_nested(t: Syntax, scopes: Seq<Scope>, p: int)
    ensures
        all_nested(scopes, lambda_params(t, scopes, p)),
{
    if t.kind(p) == "formal_parameters"@ {
        params_in_nested(t, scopes, p + 1, t.after(p));
    } else if t.kind(p) == "inferred_parameters"@ {
        inferred_in_nested(t, scopes, p + 1, t.after(p));
    }
}

proof fn introduced_nested(t: Syntax, scopes: Seq<Scope>, i: int)
    ensures
        all_nested(scopes, introduced(t, scopes, i)),
{
    let kind = t.kind(i);
    if kind == "method_declaration"@ || kind == "constructor_declaration"@
        || kind == "compact_constructor_declaration"@ {
        if let Some(params) = t.child(i, "parameters"@) {
            params_in_nested(t, scopes, params + 1, t.after(params));
        }
    } else if kind == "lambda_expression"@ {
        if let Some(params) = t.child(i, "parameters"@) {
            lambda_params_nested(t, scopes, params);
        }
    } else if kind == "local_variable_declaration"@ {
        locals_in_nested(t, scopes, i, i + 1, t.after(i));
    }
}

/// Each local name of a Java file is bound in the innermost scope at its place. One
/// that is no parameter never stands in that of the file as a whole.
pub proof fn locals_are_nested(t: Syntax, scopes: Seq<Scope>, i: int)
    ensures
        all_nested(scopes, bindings_at(t, scopes, i)),
    decreases t.left(i), 0nat,
{
    if t.has(i) {
        introduced_nested(t, scopes, i);
        bindings_in_nested(t, scopes, i + 1, t.after(i));
    }
}

proof fn bindings_in_nested(t: Syntax, scopes: Seq<Scope>, lo: int, hi: int)
    ensures
        all_nested(scopes, bindings_in(t, scopes, lo, hi)),
    decreases t.left(lo), 1nat,
{
    if lo < hi && t.has(lo) {
        locals_are_nested(t, scopes, lo);
        bindings_in_nested(t, scopes, t.next(lo, hi), hi);
    }
}

// ── Native methods ───────────────────────────────────────────────────────────

/// A function of a C file with the name that a native method is called under is
/// exported under that name: the call and the function meet.
pub proof fn native_methods_meet_functions(
    ns: Seq<Seq<char>>,
    class: Seq<char>,
    method: Seq<char>,
    symbols: Seq<SymbolView>,
    k: int,
)
    requires
        0 <= k < symbols.len(),
        symbols[k].kind == SymbolKind::Function,
        symbols[k].name == mangled(ns, class, method),
    ensures
        exports_of(symbols, symbols.len() as int).contains(
            FfiExportView {
                symbol: symbols[k].id,
                abi: FfiAbi::Jni,
                export_name: mangled(ns, class, method),
            },
        ),
{
    mangled_names_are_jni(ns, class, method);
    functions_are_exported(symbols, symbols.len() as int, k);
}

// ── Reads ────────────────────────────────────────────────────────────────────

/// Whether node `i` is an identifier that is long enough and stands where it is
/// read.
pub open spec fn is_read(t: Syntax, i: int) -> bool {
    t.kind(i) == "identifier"@ && reportable(t.text(i)) && !not_read(t, i)
}

/// Each identifier of a Java file that is read is reported.
pub proof fn reads_are_complete(t: Syntax, file: Seq<char>, i: int)
    requires
        t.nested(),
        t.has(0),
        identifiers_apart(t),
        0 <= i < t.after(0),
        is_read(t, i),
    ensures
        reads_at(t, file, 0).contains(reference_at(t, file, i, t.text(i), RefRole::Read)),
{
    let items = reads_of_nodes(t, file);
    reads_in_document_order(t, file, 0);
    assert(items(i)[0] == reference_at(t, file, i, t.text(i), RefRole::Read));
    in_order_each(items, 0, t.after(0), i, 0);
}

/// Each read that is reported of a Java file is an identifier that is read.
pub proof fn reads_are_sound(t: Syntax, file: Seq<char>, k: int)
    requires
        t.nested(),
        t.has(0),
        identifiers_apart(t),
        0 <= k < reads_at(t, file, 0).len(),
    ensures
        exists|i: int|
            0 <= i < t.after(0) && #[trigger] is_read(t, i) && reads_at(t, file, 0)[k]
                == reference_at(t, file, i, t.text(i), RefRole::Read),
{
    let items = reads_of_nodes(t, file);
    let is_one = |r: ReferenceView|
        exists|i: int|
            0 <= i < t.after(0) && #[trigger] is_read(t, i) && r == reference_at(
                t,
                file,
                i,
                t.text(i),
                RefRole::Read,
            );
    reads_in_document_order(t, file, 0);
    assert forall|i: int, k: int| 0 <= i < t.after(0) && 0 <= k < items(i).len() implies is_one(
        #[trigger] items(i)[k],
    ) by {
        assert(is_read(t, i));
    }
    in_order_all(items, 0, t.after(0), is_one);
    assert(is_one(reads_at(t, file, 0)[k]));
}

// ── Names that are reported once ─────────────────────────────────────────────

/// The name that a call in a Java file calls is not read as well.
pub proof fn callee_is_not_read(t: Syntax, i: int)
    requires
        t.linked(),
        t.has(i),
        t.kind(i) == "method_invocation"@,
    ensures
        t.child(i, "name"@) matches Some(callee) ==> not_read(t, callee),
{
    reveal_strlit("method_invocation");
    reveal_strlit("variable_declarator");
    reveal_strlit("formal_parameter");
    reveal_strlit("catch_formal_parameter");
    reveal_strlit("enhanced_for_statement");
    reveal_strlit("field_access");
    reveal_strlit("lambda_expression");
    reveal_strlit("inferred_parameters");
    reveal_strlit("assignment_expression");
    reveal_strlit("operator_assignment");
    reveal_strlit("class_declaration");
    reveal_strlit("interface_declaration");
    reveal_strlit("enum_declaration");
    reveal_strlit("record_declaration");
    reveal_strlit("annotation_type_declaration");
    reveal_strlit("method_declaration");
    reveal_strlit("constructor_declaration");
    reveal_strlit("compact_constructor_declaration");
    reveal_strlit("package_declaration");
    reveal_strlit("import_declaration");
    reveal_strlit("scoped_identifier");
    reveal_strlit("scoped_type_identifier");
    assert("method_invocation"@[0] != "lambda_expression"@[0]);
    assert("method_invocation"@[0] != "class_declaration"@[0]);
    assert("method_invocation"@[0] != "scoped_identifier"@[0]);
    field_is_child(t, i, "name"@);
}

/// The name that an assignment in a Java file writes is not read as well.
pub proof fn target_is_not_read(t: Syntax, i: int)
    requires
        t.linked(),
        t.has(i),
        t.kind(i) == "assignment_expression"@ || t.kind(i) == "operator_assignment"@,
    ensures
        t.child(i, "left"@) matches Some(target) ==> not_read(t, target),
{
    reveal_strlit("method_invocation");
    reveal_strlit("variable_declarator");
    reveal_strlit("formal_parameter");
    reveal_strlit("catch_formal_parameter");
    reveal_strlit("enhanced_for_statement");
    reveal_strlit("field_access");
    reveal_strlit("lambda_expression");
    reveal_strlit("inferred_parameters");
    reveal_strlit("assignment_expression");
    reveal_strlit("operator_assignment");
    reveal_strlit("class_declaration");
    reveal_strlit("interface_declaration");
    reveal_strlit("enum_declaration");
    reveal_strlit("record_declaration");
    reveal_strlit("annotation_type_declaration");
    reveal_strlit("method_declaration");
    reveal_strlit("constructor_declaration");
    reveal_strlit("compact_constructor_declaration");
    reveal_strlit("package_declaration");
    reveal_strlit("import_declaration");
    reveal_strlit("scoped_identifier");
    reveal_strlit("scoped_type_identifier");
    assert("assignment_expression"@[0] != "interface_declaration"@[0]);
    assert("operator_assignment"@[0] != "variable_declarator"@[0]);
    assert("operator_assignment"@[0] != "inferred_parameters"@[0]);
    assert("operator_assignment"@[0] != "package_declaration"@[0]);
    assert("annotation_type_declaration"@.len() == 27);
    field_is_child(t, i, "left"@);
}

} // verus!
