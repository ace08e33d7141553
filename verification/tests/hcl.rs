use codegraph::extract::hcl::HclExtractor;
use codegraph::extract::{Extractor, extract_path, module_symbol};
use codegraph::graph::types::{BindingKind, BindingTarget, RefRole, ScopeKind, Symbol, SymbolKind};

fn scip(sym: &Symbol) -> String {
    sym.id.to_scip_string()
}

fn find_by_name<'a>(symbols: &'a [Symbol], name: &str) -> Option<&'a Symbol> {
    symbols.iter().find(|s| s.name == name)
}

// ── Dispatch / module symbol ──────────────────────────────────────────────

#[test]
fn hcl_emits_module_symbol() {
    let src = r#"resource "aws_instance" "web" {}"#;
    let facts = HclExtractor.extract(src, "infra/main.tf").unwrap();

    assert_eq!(facts.lang, "hcl");
    let mod_sym = facts
        .symbols
        .iter()
        .find(|s| s.kind == SymbolKind::Module && s.name == "main")
        .expect("expected a Module symbol named 'main'");
    assert!(
        mod_sym.id.to_scip_string().contains("main"),
        "module symbol SCIP string should contain 'main'; got: {}",
        mod_sym.id.to_scip_string()
    );
}

#[test]
fn dispatch_routes_tf_extension() {
    let src = r#"resource "aws_instance" "web" {}"#;
    let facts = extract_path("infra/main.tf", src).unwrap();
    assert_eq!(facts.lang, "hcl");
}

#[test]
fn dispatch_routes_hcl_extension() {
    let src = r#"variable "region" { default = "us-east-1" }"#;
    let facts = extract_path("infra/vars.hcl", src).unwrap();
    assert_eq!(facts.lang, "hcl");
}

#[test]
fn dispatch_routes_tfvars_extension() {
    let src = r#"region = "us-east-1""#;
    let facts = extract_path("infra/prod.tfvars", src).unwrap();
    assert_eq!(facts.lang, "hcl");
}

// ── resource block ────────────────────────────────────────────────────────

#[test]
fn resource_block_emits_resource_symbol() {
    let src = r#"resource "aws_instance" "web" {}"#;
    let facts = HclExtractor.extract(src, "infra/main.tf").unwrap();

    let sym = find_by_name(&facts.symbols, "web").expect("expected 'web' Resource symbol");
    assert_eq!(sym.kind, SymbolKind::Resource);
    assert!(
        scip(sym).ends_with("aws_instance/web#"),
        "resource SCIP should end with 'aws_instance/web#'; got: {}",
        scip(sym)
    );
}

// ── data block ────────────────────────────────────────────────────────────

#[test]
fn data_block_emits_resource_symbol_with_data_namespace() {
    let src = r#"data "aws_ami" "ubuntu" {}"#;
    let facts = HclExtractor.extract(src, "infra/main.tf").unwrap();

    let sym =
        find_by_name(&facts.symbols, "ubuntu").expect("expected 'ubuntu' Resource symbol");
    assert_eq!(sym.kind, SymbolKind::Resource);
    assert!(
        scip(sym).ends_with("data/aws_ami/ubuntu#"),
        "data SCIP should end with 'data/aws_ami/ubuntu#'; got: {}",
        scip(sym)
    );
}

// ── module block ──────────────────────────────────────────────────────────

#[test]
fn module_block_emits_module_symbol() {
    let src = r#"module "vpc" { source = "./vpc" }"#;
    let facts = HclExtractor.extract(src, "infra/main.tf").unwrap();

    // There will be two Module-kind symbols: the file module symbol ("main")
    // and the module block symbol ("vpc"). Find the one named "vpc".
    let sym = facts
        .symbols
        .iter()
        .find(|s| s.kind == SymbolKind::Module && s.name == "vpc")
        .expect("expected a Module symbol named 'vpc'");
    assert!(
        scip(sym).ends_with("module/vpc#"),
        "module SCIP should end with 'module/vpc#'; got: {}",
        scip(sym)
    );
}

// ── v1 boundary: variable skipped ────────────────────────────────────────

#[test]
fn variable_block_alone_emits_no_block_symbol() {
    // `variable` is deferred (v1 boundary). Only the file module symbol appears.
    let src = r#"variable "region" {}"#;
    let facts = HclExtractor.extract(src, "infra/vars.tf").unwrap();

    // No Resource or non-file-module Module symbol.
    let block_syms: Vec<_> = facts
        .symbols
        .iter()
        .filter(|s| s.name == "region")
        .collect();
    assert!(
        block_syms.is_empty(),
        "variable block should produce no symbol in v1; got: {:?}",
        block_syms
    );
    // The file module symbol must still be present.
    assert!(
        facts.symbols.iter().any(|s| s.kind == SymbolKind::Module),
        "the file module symbol should still be present"
    );
}

// ── multi-block file ──────────────────────────────────────────────────────

#[test]
fn multi_block_file_emits_all_three_symbols() {
    let src = r#"
resource "aws_instance" "web" {}
data "aws_ami" "ubuntu" {}
module "vpc" { source = "./vpc" }
"#;
    let facts = HclExtractor.extract(src, "infra/main.tf").unwrap();

    let web = find_by_name(&facts.symbols, "web").expect("expected 'web'");
    assert_eq!(web.kind, SymbolKind::Resource);
    assert!(
        scip(web).ends_with("aws_instance/web#"),
        "got: {}",
        scip(web)
    );

    let ubuntu = find_by_name(&facts.symbols, "ubuntu").expect("expected 'ubuntu'");
    assert_eq!(ubuntu.kind, SymbolKind::Resource);
    assert!(
        scip(ubuntu).ends_with("data/aws_ami/ubuntu#"),
        "got: {}",
        scip(ubuntu)
    );

    let vpc = facts
        .symbols
        .iter()
        .find(|s| s.kind == SymbolKind::Module && s.name == "vpc")
        .expect("expected 'vpc'");
    assert!(scip(vpc).ends_with("module/vpc#"), "got: {}", scip(vpc));
}

// ── empty / malformed ─────────────────────────────────────────────────────

#[test]
fn empty_hcl_does_not_panic_and_returns_module_symbol() {
    let facts = HclExtractor.extract("", "infra/empty.tf").unwrap();
    assert!(
        facts.symbols.iter().any(|s| s.kind == SymbolKind::Module),
        "empty HCL should still produce the module symbol"
    );
    assert!(
        facts.references.is_empty(),
        "empty HCL should emit no references"
    );
}

#[test]
fn malformed_hcl_does_not_panic() {
    let facts = HclExtractor
        .extract("THIS IS NOT VALID HCL !!!", "infra/bad.tf")
        .unwrap();
    assert!(
        facts.symbols.iter().any(|s| s.kind == SymbolKind::Module),
        "malformed HCL should still return Ok with the module symbol"
    );
}

// ── Reference extraction (H3) ─────────────────────────────────────────────

/// `subnet_id = aws_subnet.main.id` → one TypeRef ref with name `main`,
/// qualifier `aws_subnet`.
#[test]
fn resource_attr_traversal_emits_typeref_ref() {
    let src = r#"resource "aws_instance" "web" { subnet_id = aws_subnet.main.id }"#;
    let facts = HclExtractor.extract(src, "infra/main.tf").unwrap();

    let refs: Vec<_> = facts
        .references
        .iter()
        .filter(|r| r.role == RefRole::TypeRef && r.name == "main")
        .collect();
    assert_eq!(
        refs.len(),
        1,
        "expected exactly one TypeRef ref named 'main', got: {:?}",
        facts.references
    );
    assert_eq!(
        refs[0].qualifier,
        Some("aws_subnet".to_owned()),
        "qualifier should be 'aws_subnet', got: {:?}",
        refs[0].qualifier
    );
}

/// `x = module.vpc.id` inside a resource body → TypeRef ref name `vpc`,
/// qualifier `module`.
#[test]
fn module_traversal_in_resource_body_emits_typeref_ref() {
    let src = r#"resource "aws_instance" "web" { x = module.vpc.id }"#;
    let facts = HclExtractor.extract(src, "infra/main.tf").unwrap();

    let refs: Vec<_> = facts
        .references
        .iter()
        .filter(|r| r.role == RefRole::TypeRef && r.name == "vpc")
        .collect();
    assert_eq!(
        refs.len(),
        1,
        "expected exactly one TypeRef ref named 'vpc', got: {:?}",
        facts.references
    );
    assert_eq!(
        refs[0].qualifier,
        Some("module".to_owned()),
        "qualifier should be 'module', got: {:?}",
        refs[0].qualifier
    );
}

/// `subnet_id = "${aws_subnet.main.id}"` — traversal inside a string
/// interpolation — should still be captured via the `template_interpolation`
/// → `expression` path.
///
/// If the grammar represents interpolated expressions differently and capture
/// fails here, this test is updated to document the v1 boundary rather than
/// faking it.
#[test]
fn traversal_inside_interpolation_emits_typeref_ref() {
    let src = r#"resource "aws_instance" "web" { subnet_id = "${aws_subnet.main.id}" }"#;
    let facts = HclExtractor.extract(src, "infra/main.tf").unwrap();

    let refs: Vec<_> = facts
        .references
        .iter()
        .filter(|r| r.role == RefRole::TypeRef && r.name == "main")
        .collect();
    assert_eq!(
        refs.len(),
        1,
        "expected one TypeRef ref 'main' from interpolated traversal; \
             if this fails, the grammar wraps interpolations differently — \
             document as v1 boundary. Got: {:?}",
        facts.references
    );
    assert_eq!(refs[0].qualifier, Some("aws_subnet".to_owned()));
}

/// A bare single-segment `variable_expr` (no `get_attr`) → no reference
/// emitted (can't identify an entity from one segment alone).
#[test]
fn single_segment_variable_expr_emits_no_ref() {
    // `local.x` would be two segments; a plain variable reference like
    // `count.index` would be two segments.  Use an attribute that is just
    // a plain variable name with no dot:
    let src = r#"resource "aws_instance" "web" { count = each }"#;
    let facts = HclExtractor.extract(src, "infra/main.tf").unwrap();

    // Ensure no spurious TypeRef refs are emitted for the bare identifier.
    let bare_refs: Vec<_> = facts
        .references
        .iter()
        .filter(|r| r.role == RefRole::TypeRef && r.name == "each")
        .collect();
    assert!(
        bare_refs.is_empty(),
        "bare single-segment variable should produce no TypeRef ref; got: {:?}",
        bare_refs
    );
}

// ── Tier-B scope / binding wiring ─────────────────────────────────────────

/// One Module scope spanning the whole file.
#[test]
fn tier_b_one_module_scope_spans_file() {

    let src = r#"module "vpc" { source = "./vpc" }"#;
    let facts = HclExtractor.extract(src, "infra/main.tf").unwrap();

    assert_eq!(facts.scopes.len(), 1, "expected exactly one scope");
    let s = &facts.scopes[0];
    assert_eq!(s.kind, ScopeKind::Module, "scope kind should be Module");
    assert_eq!(s.parent, None, "root scope has no parent");
    assert_eq!(s.span.start, 0, "scope should start at 0");
    assert_eq!(s.span.end, src.len(), "scope should end at source length");
}

/// module block → Definition binding at scope 0.
#[test]
fn tier_b_module_block_yields_definition_binding() {

    let src = r#"module "vpc" { source = "./vpc" }"#;
    let facts = HclExtractor.extract(src, "infra/main.tf").unwrap();

    let binding = facts
        .bindings
        .iter()
        .find(|b| b.name == "vpc")
        .expect("expected a binding named 'vpc'");
    assert_eq!(
        binding.kind,
        BindingKind::Definition,
        "binding kind should be Definition"
    );
    assert_eq!(binding.scope, 0, "module binding must live in scope 0");
    assert!(
        matches!(binding.target, BindingTarget::Def(_)),
        "target should be BindingTarget::Def(_); got {:?}",
        binding.target
    );
}

/// resource block → Definition binding at scope 0.
#[test]
fn tier_b_resource_block_yields_definition_binding() {

    let src = r#"resource "aws_instance" "web" {}"#;
    let facts = HclExtractor.extract(src, "infra/main.tf").unwrap();

    let binding = facts
        .bindings
        .iter()
        .find(|b| b.name == "web")
        .expect("expected a binding named 'web'");
    assert_eq!(
        binding.kind,
        BindingKind::Definition,
        "binding kind should be Definition"
    );
    assert_eq!(binding.scope, 0, "resource binding must live in scope 0");
    assert!(
        matches!(binding.target, BindingTarget::Def(_)),
        "target should be BindingTarget::Def(_); got {:?}",
        binding.target
    );
}

/// A reference like `module.vpc.id` gets its `scope` set to Some(_) after
/// scope attachment.
#[test]
fn tier_b_reference_scope_is_attached() {
    let src = r#"resource "aws_instance" "web" { x = module.vpc.id }"#;
    let facts = HclExtractor.extract(src, "infra/main.tf").unwrap();

    // Find the TypeRef reference for "vpc" (qualifier "module").
    let vpc_ref = facts
        .references
        .iter()
        .find(|r| r.role == RefRole::TypeRef && r.name == "vpc")
        .expect("expected a TypeRef ref named 'vpc'");
    assert!(
        vpc_ref.scope.is_some(),
        "reference scope should be attached (Some(_)); got None"
    );
}
