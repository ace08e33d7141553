//! The facts that are read from one file: its symbols, its references, its
//! scopes and its bindings.

use crate::items::views;
use crate::lang::Language;
use crate::symbol::{DescriptorView, SymbolId};
use crate::text::opt_text;
use vstd::prelude::*;

verus! {

/// What a symbol is.
#[derive(Clone, Copy, Debug, PartialEq, Eq, Hash, Structural)]
pub enum SymbolKind {
    Function,
    Method,
    Class,
    Struct,
    Enum,
    Interface,
    Trait,
    TypeAlias,
    Const,
    Static,
    Module,
    Resource,
}

/// Who can see a symbol.
#[derive(Clone, Copy, Debug, PartialEq, Eq, Hash, Structural)]
pub enum Visibility {
    Public,
    Protected,
    Internal,
    Private,
    Unknown,
}

/// Where a program, or a request to it, starts.
#[derive(Clone, Debug, PartialEq, Eq, Hash)]
pub enum EntryPoint {
    Main,
    HttpRoute(String),
}

/// The contents of an [`EntryPoint`].
pub enum EntryPointView {
    Main,
    HttpRoute(Seq<char>),
}

impl View for EntryPoint {
    type V = EntryPointView;

    open spec fn view(&self) -> EntryPointView {
        match self {
            EntryPoint::Main => EntryPointView::Main,
            EntryPoint::HttpRoute(marker) => EntryPointView::HttpRoute(marker@),
        }
    }
}

/// A place in a file.
#[derive(Clone, Debug, PartialEq, Eq, Hash)]
pub struct Occurrence {
    pub file: String,
    pub row: usize,
    pub column: usize,
    pub byte: usize,
}

/// The contents of an [`Occurrence`].
pub struct OccurrenceView {
    pub file: Seq<char>,
    pub row: int,
    pub column: int,
    pub byte: int,
}

impl View for Occurrence {
    type V = OccurrenceView;

    open spec fn view(&self) -> OccurrenceView {
        OccurrenceView {
            file: self.file@,
            row: self.row as int,
            column: self.column as int,
            byte: self.byte as int,
        }
    }
}

/// The bytes `start..end` of a file.
#[derive(Clone, Copy, Debug, PartialEq, Eq, Hash, Structural)]
pub struct ByteSpan {
    pub start: usize,
    pub end: usize,
}

/// A definition.
#[derive(Clone, Debug, PartialEq, Eq, Hash)]
pub struct Symbol {
    pub id: SymbolId,
    pub name: String,
    pub kind: SymbolKind,
    pub visibility: Visibility,
    pub lang: Language,
    pub signature: String,
    pub occ: Occurrence,
    pub span: ByteSpan,
    pub entry_points: Vec<EntryPoint>,
}

/// The contents of a [`Symbol`].
pub struct SymbolView {
    pub id: Seq<DescriptorView>,
    pub name: Seq<char>,
    pub kind: SymbolKind,
    pub visibility: Visibility,
    pub lang: Language,
    pub signature: Seq<char>,
    pub occ: OccurrenceView,
    pub span: ByteSpan,
    pub entry_points: Seq<EntryPointView>,
}

impl View for Symbol {
    type V = SymbolView;

    open spec fn view(&self) -> SymbolView {
        SymbolView {
            id: self.id@,
            name: self.name@,
            kind: self.kind,
            visibility: self.visibility,
            lang: self.lang,
            signature: self.signature@,
            occ: self.occ@,
            span: self.span,
            entry_points: views(self.entry_points@),
        }
    }
}

/// How a name is used.
#[derive(Clone, Copy, Debug, PartialEq, Eq, Hash, Structural)]
pub enum RefRole {
    Call,
    Read,
    Write,
    TypeRef,
    Import,
    IsImplementation,
}

/// Where a type stands.
#[derive(Clone, Copy, Debug, PartialEq, Eq, Hash, Structural)]
pub enum TypeRefContext {
    ParameterType,
    ReturnType,
    Field,
    GenericArg,
}

/// The number of a scope in the list of scopes of its file.
pub type ScopeId = usize;

/// A use of a name.
#[derive(Clone, Debug, PartialEq, Eq, Hash)]
pub struct Reference {
    pub name: String,
    pub qualifier: Option<String>,
    pub role: RefRole,
    pub occ: Occurrence,
    pub source_module: Option<String>,
    pub from_path: Option<String>,
    pub is_reexport: bool,
    pub imported_name: Option<String>,
    pub scope: Option<ScopeId>,
    pub type_ref_ctx: Option<TypeRefContext>,
    pub cross_artifact: bool,
    pub self_receiver: bool,
}

/// The contents of a [`Reference`].
pub struct ReferenceView {
    pub name: Seq<char>,
    pub qualifier: Option<Seq<char>>,
    pub role: RefRole,
    pub occ: OccurrenceView,
    pub source_module: Option<Seq<char>>,
    pub from_path: Option<Seq<char>>,
    pub is_reexport: bool,
    pub imported_name: Option<Seq<char>>,
    pub scope: Option<ScopeId>,
    pub type_ref_ctx: Option<TypeRefContext>,
    pub cross_artifact: bool,
    pub self_receiver: bool,
}

impl View for Reference {
    type V = ReferenceView;

    open spec fn view(&self) -> ReferenceView {
        ReferenceView {
            name: self.name@,
            qualifier: opt_text(self.qualifier),
            role: self.role,
            occ: self.occ@,
            source_module: opt_text(self.source_module),
            from_path: opt_text(self.from_path),
            is_reexport: self.is_reexport,
            imported_name: opt_text(self.imported_name),
            scope: self.scope,
            type_ref_ctx: self.type_ref_ctx,
            cross_artifact: self.cross_artifact,
            self_receiver: self.self_receiver,
        }
    }
}

/// What opens a scope.
#[derive(Clone, Copy, Debug, PartialEq, Eq, Hash, Structural)]
pub enum ScopeKind {
    Module,
    Type,
    Function,
    Block,
}

/// A lexical scope.
#[derive(Clone, Copy, Debug, PartialEq, Eq, Hash)]
pub struct Scope {
    pub parent: Option<ScopeId>,
    pub span: ByteSpan,
    pub kind: ScopeKind,
}

/// How a name is introduced.
#[derive(Clone, Copy, Debug, PartialEq, Eq, Hash, Structural)]
pub enum BindingKind {
    Param,
    Local,
    Definition,
    Import,
}

/// What a bound name stands for.
#[derive(Clone, Debug, PartialEq, Eq, Hash)]
pub enum BindingTarget {
    Local,
    Import,
    Def(SymbolId),
}

/// The contents of a [`BindingTarget`].
pub enum BindingTargetView {
    Local,
    Import,
    Def(Seq<DescriptorView>),
}

impl View for BindingTarget {
    type V = BindingTargetView;

    open spec fn view(&self) -> BindingTargetView {
        match self {
            BindingTarget::Local => BindingTargetView::Local,
            BindingTarget::Import => BindingTargetView::Import,
            BindingTarget::Def(id) => BindingTargetView::Def(id@),
        }
    }
}

/// A name that a scope binds.
#[derive(Clone, Debug, PartialEq, Eq, Hash)]
pub struct Binding {
    pub name: String,
    pub scope: ScopeId,
    pub kind: BindingKind,
    pub target: BindingTarget,
    pub intro: usize,
    pub declared_type: Option<String>,
}

/// The contents of a [`Binding`].
pub struct BindingView {
    pub name: Seq<char>,
    pub scope: ScopeId,
    pub kind: BindingKind,
    pub target: BindingTargetView,
    pub intro: int,
    pub declared_type: Option<Seq<char>>,
}

impl View for Binding {
    type V = BindingView;

    open spec fn view(&self) -> BindingView {
        BindingView {
            name: self.name@,
            scope: self.scope,
            kind: self.kind,
            target: self.target@,
            intro: self.intro as int,
            declared_type: opt_text(self.declared_type),
        }
    }
}

/// A calling convention under which another language reaches a function.
#[derive(Clone, Copy, Debug, PartialEq, Eq, Hash, Structural)]
pub enum FfiAbi {
    Jni,
}

/// A function that another language can call.
#[derive(Clone, Debug, PartialEq, Eq, Hash)]
pub struct FfiExport {
    pub symbol: SymbolId,
    pub abi: FfiAbi,
    pub export_name: String,
}

/// The contents of an [`FfiExport`].
pub struct FfiExportView {
    pub symbol: Seq<DescriptorView>,
    pub abi: FfiAbi,
    pub export_name: Seq<char>,
}

impl View for FfiExport {
    type V = FfiExportView;

    open spec fn view(&self) -> FfiExportView {
        FfiExportView { symbol: self.symbol@, abi: self.abi, export_name: self.export_name@ }
    }
}

/// The facts of one file.
#[derive(Clone, Debug, PartialEq, Eq, Hash)]
pub struct FileFacts {
    pub file: String,
    pub lang: String,
    pub symbols: Vec<Symbol>,
    pub references: Vec<Reference>,
    pub scopes: Vec<Scope>,
    pub bindings: Vec<Binding>,
    pub ffi_exports: Vec<FfiExport>,
}

/// The contents of a [`FileFacts`].
pub struct FileFactsView {
    pub file: Seq<char>,
    pub lang: Seq<char>,
    pub symbols: Seq<SymbolView>,
    pub references: Seq<ReferenceView>,
    pub scopes: Seq<Scope>,
    pub bindings: Seq<BindingView>,
    pub ffi_exports: Seq<FfiExportView>,
}

impl View for FileFacts {
    type V = FileFactsView;

    open spec fn view(&self) -> FileFactsView {
        FileFactsView {
            file: self.file@,
            lang: self.lang@,
            symbols: views(self.symbols@),
            references: views(self.references@),
            scopes: self.scopes@,
            bindings: views(self.bindings@),
            ffi_exports: views(self.ffi_exports@),
        }
    }
}

} // verus!
