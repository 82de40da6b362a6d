use vstd::prelude::*;

verus! {

// ---------------------------------------------------------------------------
// The records of the module graph: one `Module` per source file, with its
// imports and exports.
// ---------------------------------------------------------------------------

pub type ModuleId = u32;

/// A half-open byte range into a source file.
#[derive(Clone, Copy, PartialEq, Eq, Structural, Debug)]
pub struct Span {
    pub start: u32,
    pub end: u32,
}

#[derive(Clone, Copy, PartialEq, Eq, Structural, Debug)]
pub enum ImportedKind {
    /// `import name`
    Default,
    /// `import type name`
    DefaultType,
    /// `import * as name`
    Namespace,
    /// `import type * as name`
    NamespaceType,
    /// `import { value }`, `import { value as name }`
    Value,
    /// `import { type T }`, `import type { T }`
    ValueType,
}

#[derive(Clone, PartialEq, Eq, Debug)]
pub struct ImportedSymbol {
    pub kind: ImportedKind,
    /// The name on the exporting side, set only when renaming.
    pub source_name: Option<String>,
    pub symbol_id: Option<u32>,
    pub name: String,
}

#[derive(Clone, Copy, PartialEq, Eq, Structural, Debug)]
pub enum ImportKind {
    /// `import`
    AsyncStatic,
    /// `import()`
    AsyncDynamic,
    /// `require()`
    SyncStatic,
}

#[derive(Clone, PartialEq, Eq, Debug)]
pub struct Import {
    pub kind: ImportKind,
    /// Populated after resolution; `0` while unresolved.
    pub module_id: ModuleId,
    /// The literal specifier as written.
    pub source_request: String,
    pub span: Span,
    pub symbols: Vec<ImportedSymbol>,
    pub type_only: bool,
}

/// The mathematical shape of an `ImportedSymbol`.
pub struct ImportedSymbolV {
    pub kind: ImportedKind,
    pub source_name: Option<Seq<char>>,
    pub symbol_id: Option<u32>,
    pub name: Seq<char>,
}

pub open spec fn view_opt_chars(o: Option<String>) -> Option<Seq<char>> {
    match o {
        Some(x) => Some(x@),
        None => None,
    }
}

impl View for ImportedSymbol {
    type V = ImportedSymbolV;

    open spec fn view(&self) -> ImportedSymbolV {
        ImportedSymbolV {
            kind: self.kind,
            source_name: view_opt_chars(self.source_name),
            symbol_id: self.symbol_id,
            name: self.name@,
        }
    }
}

/// The mathematical shape of an `Import`.
pub struct ImportV {
    pub kind: ImportKind,
    pub module_id: ModuleId,
    pub source_request: Seq<char>,
    pub span: Span,
    pub symbols: Seq<ImportedSymbolV>,
    pub type_only: bool,
}

pub open spec fn view_symbols(s: Seq<ImportedSymbol>) -> Seq<ImportedSymbolV> {
    Seq::new(s.len(), |i: int| s[i]@)
}

impl View for Import {
    type V = ImportV;

    open spec fn view(&self) -> ImportV {
        ImportV {
            kind: self.kind,
            module_id: self.module_id,
            source_request: self.source_request@,
            span: self.span,
            symbols: view_symbols(self.symbols@),
            type_only: self.type_only,
        }
    }
}

#[derive(Clone, Copy, PartialEq, Eq, Structural, Debug)]
pub enum ExportedKind {
    Default,
    DefaultType,
    Namespace,
    NamespaceType,
    Value,
    ValueType,
}

#[derive(Clone, PartialEq, Eq, Debug)]
pub struct ExportedSymbol {
    pub kind: ExportedKind,
    pub symbol_id: Option<u32>,
    pub name: String,
}

#[derive(Clone, Copy, PartialEq, Eq, Structural, Debug)]
pub enum ExportKind {
    /// ES module syntax.
    Modern,
    /// CommonJS `exports.x` / `module.exports`.
    Legacy,
    /// Synthetic, for non-JavaScript files.
    Native,
}

#[derive(Clone, PartialEq, Eq, Debug)]
pub struct Export {
    pub kind: ExportKind,
    /// Populated after resolution of `source`.
    pub module_id: Option<ModuleId>,
    /// Set only for re-exports.
    pub source: Option<String>,
    pub span: Option<Span>,
    pub symbols: Vec<ExportedSymbol>,
    pub type_only: bool,
}

/// The mathematical shape of an `ExportedSymbol`.
pub struct ExportedSymbolV {
    pub kind: ExportedKind,
    pub symbol_id: Option<u32>,
    pub name: Seq<char>,
}

impl View for ExportedSymbol {
    type V = ExportedSymbolV;

    open spec fn view(&self) -> ExportedSymbolV {
        ExportedSymbolV { kind: self.kind, symbol_id: self.symbol_id, name: self.name@ }
    }
}

/// The mathematical shape of an `Export`.
pub struct ExportV {
    pub kind: ExportKind,
    pub module_id: Option<ModuleId>,
    pub source: Option<Seq<char>>,
    pub span: Option<Span>,
    pub symbols: Seq<ExportedSymbolV>,
    pub type_only: bool,
}

pub open spec fn view_esymbols(s: Seq<ExportedSymbol>) -> Seq<ExportedSymbolV> {
    Seq::new(s.len(), |i: int| s[i]@)
}

impl View for Export {
    type V = ExportV;

    open spec fn view(&self) -> ExportV {
        ExportV {
            kind: self.kind,
            module_id: self.module_id,
            source: view_opt_chars(self.source),
            span: self.span,
            symbols: view_esymbols(self.symbols@),
            type_only: self.type_only,
        }
    }
}

#[derive(Clone, Copy, PartialEq, Eq, Structural, Debug)]
pub enum SourceKind {
    Unknown,
    Audio,
    Css,
    Image,
    JavaScript,
    Json,
    Text,
    Video,
    Yaml,
}

} // verus!
