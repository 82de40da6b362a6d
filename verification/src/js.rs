use vstd::prelude::*;

use crate::module::{
    Import, ImportKind, ImportV, ImportedKind, ImportedSymbol, ImportedSymbolV, Export, ExportKind,
    ExportV, ExportedKind, ExportedSymbol, ExportedSymbolV, Span, view_esymbols, view_opt_chars,
    view_symbols,
};

verus! {

// ---------------------------------------------------------------------------
// Import/export extraction for JavaScript and TypeScript sources.
//
// The extractor consumes a sequence of syntax records, one per node of the
// parsed tree in source (preorder) order, holding exactly what the walk
// reads: specifier texts, binding names, spans, and the type-only flags.
// ---------------------------------------------------------------------------

#[derive(PartialEq, Eq, Debug)]
pub struct IdInfo {
    pub name: String,
    pub symbol_id: Option<u32>,
}

/// One top-level statement of the program body, as far as the statistics
/// need it.
#[derive(Clone, Copy, PartialEq, Eq, Structural, Debug)]
pub enum TopStatement {
    ImportDecl,
    ExportDecl,
    /// A bare `await import(...)` expression statement.
    AwaitImportExpression,
    Other,
}

#[derive(PartialEq, Eq, Debug)]
pub struct ObjectProp {
    /// The property key when it is a plain name, `None` for computed keys.
    pub key: Option<String>,
    pub value: BindingPat,
}

#[derive(PartialEq, Eq, Debug)]
pub enum BindingPat {
    Ident(IdInfo),
    Object { properties: Vec<ObjectProp>, rest: Option<Box<BindingPat>> },
    Array { elements: Vec<Option<BindingPat>>, rest: Option<Box<BindingPat>> },
    Assign(Box<BindingPat>),
}

#[derive(PartialEq, Eq, Debug)]
pub enum DefaultDecl {
    Class { id: Option<IdInfo> },
    Function { id: Option<IdInfo> },
    Identifier { name: String },
    TsEnum { id: IdInfo },
    TsInterface { id: IdInfo },
    Other,
}

#[derive(PartialEq, Eq, Debug)]
pub enum NamedDecl {
    Variable { bindings: Vec<BindingPat> },
    Function { id: IdInfo },
    Class { id: IdInfo },
    TsTypeAlias { id: IdInfo },
    TsInterface { id: IdInfo },
    TsEnum { id: IdInfo },
    TsModule { name: String },
    TsImportEquals { id: IdInfo },
    Other,
}

#[derive(PartialEq, Eq, Debug)]
pub struct NamedSpecifier {
    pub local_name: String,
    pub is_type: bool,
}

#[derive(PartialEq, Eq, Debug)]
pub enum ImportSpecifierInfo {
    Named { imported: String, local: IdInfo, is_type: bool },
    Default { local: IdInfo },
    Namespace { local: IdInfo },
}

#[derive(PartialEq, Eq, Debug)]
pub struct AwaitImportInit {
    pub span: Span,
    /// The specifier when the argument is a string literal.
    pub string_arg: Option<String>,
}

/// One record of the syntax walk.
#[derive(PartialEq, Eq, Debug)]
pub enum JsEvent {
    /// The program body, one entry per top-level statement.
    Program { statements: Vec<TopStatement> },
    /// `export = expr`
    TsExportAssignment { span: Span },
    /// Any call expression: the callee's plain name if it has one, the
    /// argument count, and the first argument when it is a string literal.
    Call { span: Span, callee: Option<String>, argument_count: usize, string_arg: Option<String> },
    /// `export * from "m"`, `export * as name from "m"`
    ExportAll { span: Span, source: String, is_type: bool, exported: Option<String> },
    /// `export default ...`
    ExportDefault { span: Span, decl: DefaultDecl },
    /// `export { ... }`, `export const ...`, `export type ...`
    ExportNamed {
        span: Span,
        export_kind_type: bool,
        declaration: Option<NamedDecl>,
        specifiers: Vec<NamedSpecifier>,
        source: Option<String>,
    },
    /// `import ... from "m"`
    ImportDecl {
        span: Span,
        source: String,
        is_type: bool,
        specifiers: Option<Vec<ImportSpecifierInfo>>,
    },
    /// `import(...)`
    ImportExpression { span: Span, string_arg: Option<String> },
    /// A static member expression: the object's plain name if it has one,
    /// and the property name.
    StaticMember { span: Span, object: Option<String>, property: String },
    /// `import name = require("m")`
    TsImportEquals { span: Span, id: IdInfo, is_type: bool, external_source: Option<String> },
    /// A variable declarator, with its initializer when that is
    /// `await import(...)`.
    Declarator { binding: BindingPat, init: Option<AwaitImportInit> },
}

#[derive(Clone, Copy, PartialEq, Eq, Structural, Debug)]
pub struct JavaScriptStats {
    pub dynamic_import_count: usize,
    pub export_statements: usize,
    pub exports_default: bool,
    pub import_statements: usize,
    /// Top-level statements that are neither imports, nor exports, nor a
    /// bare `await import(...)`.
    pub other_statements: usize,
    pub require_count: usize,
}

/// The mathematical shape of the statistics.
pub struct StatsV {
    pub dynamic_import_count: int,
    pub export_statements: int,
    pub exports_default: bool,
    pub import_statements: int,
    pub other_statements: int,
    pub require_count: int,
}

impl View for JavaScriptStats {
    type V = StatsV;

    open spec fn view(&self) -> StatsV {
        StatsV {
            dynamic_import_count: self.dynamic_import_count as int,
            export_statements: self.export_statements as int,
            exports_default: self.exports_default,
            import_statements: self.import_statements as int,
            other_statements: self.other_statements as int,
            require_count: self.require_count as int,
        }
    }
}

/// The extractor's state: the records gathered so far and the spans of the
/// dynamic imports and `require` calls already taken, so that a call site
/// found twice is counted once.
pub struct ExtractImportsExports {
    pub imports: Vec<Import>,
    pub exports: Vec<Export>,
    pub stats: JavaScriptStats,
    pub extracted_dynamic_imports: Vec<Span>,
    pub extracted_requires: Vec<Span>,
}

/// The mathematical shape of the extractor's state.
pub struct JsStateV {
    pub imports: Seq<ImportV>,
    pub exports: Seq<ExportV>,
    pub stats: StatsV,
    pub dyn_spans: Seq<Span>,
    pub req_spans: Seq<Span>,
}

pub open spec fn view_imports(s: Seq<Import>) -> Seq<ImportV> {
    Seq::new(s.len(), |i: int| s[i]@)
}

pub open spec fn view_exports(s: Seq<Export>) -> Seq<ExportV> {
    Seq::new(s.len(), |i: int| s[i]@)
}

impl View for ExtractImportsExports {
    type V = JsStateV;

    open spec fn view(&self) -> JsStateV {
        JsStateV {
            imports: view_imports(self.imports@),
            exports: view_exports(self.exports@),
            stats: self.stats@,
            dyn_spans: self.extracted_dynamic_imports@,
            req_spans: self.extracted_requires@,
        }
    }
}

// ---------------------------------------------------------------------------
// Spec-level literals and helpers.
// ---------------------------------------------------------------------------

pub open spec fn lit_default_name() -> Seq<char> {
    seq!['d', 'e', 'f', 'a', 'u', 'l', 't']
}

pub open spec fn lit_require_name() -> Seq<char> {
    seq!['r', 'e', 'q', 'u', 'i', 'r', 'e']
}

pub open spec fn lit_exports_name() -> Seq<char> {
    seq!['e', 'x', 'p', 'o', 'r', 't', 's']
}

pub open spec fn lit_module_name() -> Seq<char> {
    seq!['m', 'o', 'd', 'u', 'l', 'e']
}

pub open spec fn lit_star_name() -> Seq<char> {
    seq!['*']
}

pub open spec fn span_in(spans: Seq<Span>, sp: Span) -> bool {
    exists|i: int| 0 <= i < spans.len() && spans[i] == sp
}

pub open spec fn sat_inc(x: int) -> int {
    if x < usize::MAX as int {
        x + 1
    } else {
        x
    }
}

// ---------------------------------------------------------------------------
// Binding patterns.
// ---------------------------------------------------------------------------

/// The symbols a binding pattern takes out of a dynamic import or `require`
/// namespace: the whole namespace for a plain name, one symbol per object
/// property (`default` when the source key is literally `default`, with
/// `source_name` kept on renames), the rest binding as a namespace.  Array
/// patterns bind nothing here; a default value recurses into its target.
/// A computed property key binds nothing.
pub open spec fn spec_import_pat(pat: BindingPat) -> Seq<ImportedSymbolV>
    decreases pat,
{
    match pat {
        BindingPat::Ident(id) => seq![
            ImportedSymbolV {
                kind: ImportedKind::Namespace,
                source_name: None,
                symbol_id: id.symbol_id,
                name: id.name@,
            },
        ],
        BindingPat::Object { properties, rest } => spec_import_props(properties@) + (match rest {
            Some(b) => match *b {
                BindingPat::Ident(id) => seq![
                    ImportedSymbolV {
                        kind: ImportedKind::Namespace,
                        source_name: None,
                        symbol_id: None,
                        name: id.name@,
                    },
                ],
                _ => Seq::empty(),
            },
            None => Seq::empty(),
        }),
        BindingPat::Array { .. } => Seq::empty(),
        BindingPat::Assign(inner) => spec_import_pat(*inner),
    }
}

pub open spec fn spec_import_prop(p: ObjectProp) -> Seq<ImportedSymbolV> {
    let kind = if view_opt_chars(p.key) == Some(lit_default_name()) {
        ImportedKind::Default
    } else {
        ImportedKind::Value
    };
    match p.value {
        BindingPat::Ident(id) => seq![
            ImportedSymbolV {
                kind: kind,
                source_name: if kind == ImportedKind::Default || view_opt_chars(p.key) == Some(
                    id.name@,
                ) {
                    None
                } else {
                    view_opt_chars(p.key)
                },
                symbol_id: id.symbol_id,
                name: id.name@,
            },
        ],
        _ => match p.key {
            Some(k) => seq![
                ImportedSymbolV { kind: kind, source_name: None, symbol_id: None, name: k@ },
            ],
            None => Seq::empty(),
        },
    }
}

pub open spec fn spec_import_props(props: Seq<ObjectProp>) -> Seq<ImportedSymbolV>
    decreases props.len(),
{
    if props.len() == 0 {
        Seq::empty()
    } else {
        spec_import_prop(props[0]) + spec_import_props(props.drop_first())
    }
}

/// The symbols an exported binding pattern declares: every bound name, in
/// source order, as a `Value` symbol.
pub open spec fn spec_export_pat(pat: BindingPat) -> Seq<ExportedSymbolV>
    decreases pat,
{
    match pat {
        BindingPat::Ident(id) => seq![
            ExportedSymbolV {
                kind: ExportedKind::Value,
                symbol_id: id.symbol_id,
                name: id.name@,
            },
        ],
        BindingPat::Object { properties, rest } => spec_export_props(properties@) + (match rest {
            Some(b) => spec_export_pat(*b),
            None => Seq::empty(),
        }),
        BindingPat::Array { elements, rest } => spec_export_elems(elements@) + (match rest {
            Some(b) => spec_export_pat(*b),
            None => Seq::empty(),
        }),
        BindingPat::Assign(inner) => spec_export_pat(*inner),
    }
}

pub open spec fn spec_export_props(props: Seq<ObjectProp>) -> Seq<ExportedSymbolV>
    decreases props,
{
    if props.len() == 0 {
        Seq::empty()
    } else {
        spec_export_pat(props[0].value) + spec_export_props(props.drop_first())
    }
}

pub open spec fn spec_export_elems(elems: Seq<Option<BindingPat>>) -> Seq<ExportedSymbolV>
    decreases elems,
{
    if elems.len() == 0 {
        Seq::empty()
    } else {
        (match elems[0] {
            Some(p) => spec_export_pat(p),
            None => Seq::empty(),
        }) + spec_export_elems(elems.drop_first())
    }
}

pub open spec fn spec_export_bindings(bindings: Seq<BindingPat>) -> Seq<ExportedSymbolV>
    decreases bindings,
{
    if bindings.len() == 0 {
        Seq::empty()
    } else {
        spec_export_pat(bindings[0]) + spec_export_bindings(bindings.drop_first())
    }
}

// ---------------------------------------------------------------------------
// One step of the extraction, as a spec-level function.
// ---------------------------------------------------------------------------

pub open spec fn spec_count_one(sv: StatsV, st: TopStatement) -> StatsV {
    match st {
        TopStatement::ImportDecl => StatsV {
            import_statements: sat_inc(sv.import_statements),
            ..sv
        },
        TopStatement::ExportDecl => StatsV {
            export_statements: sat_inc(sv.export_statements),
            ..sv
        },
        TopStatement::AwaitImportExpression => sv,
        TopStatement::Other => StatsV { other_statements: sat_inc(sv.other_statements), ..sv },
    }
}

pub open spec fn spec_count_stmts(sv: StatsV, stmts: Seq<TopStatement>) -> StatsV
    decreases stmts.len(),
{
    if stmts.len() == 0 {
        sv
    } else {
        spec_count_stmts(spec_count_one(sv, stmts[0]), stmts.drop_first())
    }
}

/// The symbols of a static `import` declaration's specifier list.
pub open spec fn spec_import_specifier(sp: ImportSpecifierInfo, decl_is_type: bool)
    -> ImportedSymbolV {
    match sp {
        ImportSpecifierInfo::Named { imported, local, is_type } => ImportedSymbolV {
            kind: if decl_is_type || is_type {
                ImportedKind::ValueType
            } else {
                ImportedKind::Value
            },
            source_name: if imported@ == local.name@ {
                None
            } else {
                Some(imported@)
            },
            symbol_id: local.symbol_id,
            name: local.name@,
        },
        ImportSpecifierInfo::Default { local } => ImportedSymbolV {
            kind: if decl_is_type {
                ImportedKind::DefaultType
            } else {
                ImportedKind::Default
            },
            source_name: None,
            symbol_id: local.symbol_id,
            name: local.name@,
        },
        ImportSpecifierInfo::Namespace { local } => ImportedSymbolV {
            kind: if decl_is_type {
                ImportedKind::NamespaceType
            } else {
                ImportedKind::Namespace
            },
            source_name: None,
            symbol_id: local.symbol_id,
            name: local.name@,
        },
    }
}

/// Whether a named export's declaration is TypeScript-only syntax.
pub open spec fn spec_named_decl_is_ts(d: NamedDecl) -> bool {
    match d {
        NamedDecl::TsTypeAlias { .. } => true,
        NamedDecl::TsInterface { .. } => true,
        NamedDecl::TsEnum { .. } => true,
        NamedDecl::TsModule { .. } => true,
        NamedDecl::TsImportEquals { .. } => true,
        _ => false,
    }
}

/// The symbols of a named export's declaration part.
pub open spec fn spec_named_decl_syms(d: NamedDecl) -> Seq<ExportedSymbolV> {
    match d {
        NamedDecl::Variable { bindings } => spec_export_bindings(bindings@),
        NamedDecl::Function { id } => seq![
            ExportedSymbolV { kind: ExportedKind::Value, symbol_id: id.symbol_id, name: id.name@ },
        ],
        NamedDecl::Class { id } => seq![
            ExportedSymbolV { kind: ExportedKind::Value, symbol_id: id.symbol_id, name: id.name@ },
        ],
        NamedDecl::TsTypeAlias { id } => seq![
            ExportedSymbolV {
                kind: ExportedKind::ValueType,
                symbol_id: id.symbol_id,
                name: id.name@,
            },
        ],
        NamedDecl::TsInterface { id } => seq![
            ExportedSymbolV {
                kind: ExportedKind::ValueType,
                symbol_id: id.symbol_id,
                name: id.name@,
            },
        ],
        NamedDecl::TsEnum { id } => seq![
            ExportedSymbolV {
                kind: ExportedKind::ValueType,
                symbol_id: id.symbol_id,
                name: id.name@,
            },
        ],
        NamedDecl::TsModule { name } => seq![
            ExportedSymbolV { kind: ExportedKind::ValueType, symbol_id: None, name: name@ },
        ],
        NamedDecl::TsImportEquals { id } => seq![
            ExportedSymbolV {
                kind: ExportedKind::ValueType,
                symbol_id: id.symbol_id,
                name: id.name@,
            },
        ],
        NamedDecl::Other => Seq::empty(),
    }
}

/// The symbols of a default export.
pub open spec fn spec_default_syms(d: DefaultDecl) -> Seq<ExportedSymbolV> {
    match d {
        DefaultDecl::Class { id: Some(id) } => seq![
            ExportedSymbolV {
                kind: ExportedKind::Default,
                symbol_id: id.symbol_id,
                name: id.name@,
            },
        ],
        DefaultDecl::Function { id: Some(id) } => seq![
            ExportedSymbolV {
                kind: ExportedKind::Default,
                symbol_id: id.symbol_id,
                name: id.name@,
            },
        ],
        DefaultDecl::Identifier { name } => seq![
            ExportedSymbolV { kind: ExportedKind::Default, symbol_id: None, name: name@ },
        ],
        DefaultDecl::TsEnum { id } => seq![
            ExportedSymbolV {
                kind: ExportedKind::DefaultType,
                symbol_id: id.symbol_id,
                name: id.name@,
            },
        ],
        DefaultDecl::TsInterface { id } => seq![
            ExportedSymbolV {
                kind: ExportedKind::DefaultType,
                symbol_id: id.symbol_id,
                name: id.name@,
            },
        ],
        _ => seq![
            ExportedSymbolV {
                kind: ExportedKind::Default,
                symbol_id: None,
                name: lit_default_name(),
            },
        ],
    }
}

pub open spec fn spec_default_is_ts(d: DefaultDecl) -> bool {
    match d {
        DefaultDecl::TsEnum { .. } => true,
        DefaultDecl::TsInterface { .. } => true,
        _ => false,
    }
}

/// What one syntax record does to the extractor's state.
pub open spec fn spec_js_step(st: JsStateV, e: JsEvent) -> JsStateV {
    match e {
        JsEvent::Program { statements } => JsStateV {
            stats: spec_count_stmts(st.stats, statements@),
            ..st
        },
        JsEvent::TsExportAssignment { span } => JsStateV {
            exports: st.exports.push(
                ExportV {
                    kind: ExportKind::Modern,
                    module_id: None,
                    source: None,
                    span: Some(span),
                    symbols: seq![
                        ExportedSymbolV {
                            kind: ExportedKind::Default,
                            symbol_id: None,
                            name: lit_default_name(),
                        },
                    ],
                    type_only: false,
                },
            ),
            ..st
        },
        JsEvent::Call { span, callee, argument_count, string_arg } => {
            if view_opt_chars(callee) == Some(lit_require_name()) && argument_count == 1
                && string_arg is Some && !span_in(st.req_spans, span) {
                JsStateV {
                    imports: st.imports.push(
                        ImportV {
                            kind: ImportKind::SyncStatic,
                            module_id: 0,
                            source_request: string_arg.unwrap()@,
                            span: span,
                            symbols: Seq::empty(),
                            type_only: false,
                        },
                    ),
                    req_spans: st.req_spans.push(span),
                    stats: StatsV { require_count: sat_inc(st.stats.require_count), ..st.stats },
                    ..st
                }
            } else {
                st
            }
        },
        JsEvent::ExportAll { span, source, is_type, exported } => JsStateV {
            exports: st.exports.push(
                ExportV {
                    kind: ExportKind::Modern,
                    module_id: None,
                    source: Some(source@),
                    span: Some(span),
                    symbols: seq![
                        ExportedSymbolV {
                            kind: if is_type {
                                ExportedKind::NamespaceType
                            } else {
                                ExportedKind::Namespace
                            },
                            symbol_id: None,
                            name: match exported {
                                Some(n) => n@,
                                None => lit_star_name(),
                            },
                        },
                    ],
                    type_only: is_type,
                },
            ),
            ..st
        },
        JsEvent::ExportDefault { span, decl } => JsStateV {
            exports: st.exports.push(
                ExportV {
                    kind: ExportKind::Modern,
                    module_id: None,
                    source: None,
                    span: Some(span),
                    symbols: spec_default_syms(decl),
                    type_only: spec_default_is_ts(decl),
                },
            ),
            stats: StatsV { exports_default: true, ..st.stats },
            ..st
        },
        JsEvent::ExportNamed { span, export_kind_type, declaration, specifiers, source } => {
            let decl_syms = match declaration {
                Some(d) => spec_named_decl_syms(d),
                None => Seq::empty(),
            };
            let spec_syms = Seq::new(
                specifiers@.len(),
                |i: int|
                    ExportedSymbolV {
                        kind: if export_kind_type || specifiers@[i].is_type {
                            ExportedKind::ValueType
                        } else {
                            ExportedKind::Value
                        },
                        symbol_id: None,
                        name: specifiers@[i].local_name@,
                    },
            );
            let all = decl_syms + spec_syms;
            let is_ts = export_kind_type || (match declaration {
                Some(d) => spec_named_decl_is_ts(d),
                None => false,
            });
            if all.len() > 0 {
                JsStateV {
                    exports: st.exports.push(
                        ExportV {
                            kind: ExportKind::Modern,
                            module_id: None,
                            source: view_opt_chars(source),
                            span: Some(span),
                            symbols: all,
                            type_only: is_ts,
                        },
                    ),
                    ..st
                }
            } else {
                st
            }
        },
        JsEvent::ImportDecl { span, source, is_type, specifiers } => {
            let syms = match specifiers {
                Some(list) => Seq::new(
                    list@.len(),
                    |i: int| spec_import_specifier(list@[i], is_type),
                ),
                None => Seq::empty(),
            };
            if syms.len() > 0 {
                JsStateV {
                    imports: st.imports.push(
                        ImportV {
                            kind: ImportKind::AsyncStatic,
                            module_id: 0,
                            source_request: source@,
                            span: span,
                            symbols: syms,
                            type_only: is_type,
                        },
                    ),
                    ..st
                }
            } else {
                st
            }
        },
        JsEvent::ImportExpression { span, string_arg } => {
            if string_arg is Some && !span_in(st.dyn_spans, span) {
                JsStateV {
                    imports: st.imports.push(
                        ImportV {
                            kind: ImportKind::AsyncDynamic,
                            module_id: 0,
                            source_request: string_arg.unwrap()@,
                            span: span,
                            symbols: Seq::empty(),
                            type_only: false,
                        },
                    ),
                    dyn_spans: st.dyn_spans.push(span),
                    stats: StatsV {
                        dynamic_import_count: sat_inc(st.stats.dynamic_import_count),
                        ..st.stats
                    },
                    ..st
                }
            } else {
                st
            }
        },
        JsEvent::StaticMember { span, object, property } => {
            if view_opt_chars(object) == Some(lit_exports_name()) && property@.len() > 0 {
                JsStateV {
                    exports: st.exports.push(
                        ExportV {
                            kind: ExportKind::Legacy,
                            module_id: None,
                            source: None,
                            span: Some(span),
                            symbols: seq![
                                ExportedSymbolV {
                                    kind: ExportedKind::Value,
                                    symbol_id: None,
                                    name: property@,
                                },
                            ],
                            type_only: false,
                        },
                    ),
                    ..st
                }
            } else if view_opt_chars(object) == Some(lit_module_name()) && property@
                == lit_exports_name() {
                JsStateV {
                    exports: st.exports.push(
                        ExportV {
                            kind: ExportKind::Legacy,
                            module_id: None,
                            source: None,
                            span: Some(span),
                            symbols: seq![
                                ExportedSymbolV {
                                    kind: ExportedKind::Default,
                                    symbol_id: None,
                                    name: lit_default_name(),
                                },
                            ],
                            type_only: false,
                        },
                    ),
                    ..st
                }
            } else {
                st
            }
        },
        JsEvent::TsImportEquals { span, id, is_type, external_source } => {
            match external_source {
                Some(src) => JsStateV {
                    imports: st.imports.push(
                        ImportV {
                            kind: ImportKind::SyncStatic,
                            module_id: 0,
                            source_request: src@,
                            span: span,
                            symbols: seq![
                                ImportedSymbolV {
                                    kind: ImportedKind::Default,
                                    source_name: None,
                                    symbol_id: id.symbol_id,
                                    name: id.name@,
                                },
                            ],
                            type_only: is_type,
                        },
                    ),
                    ..st
                },
                None => st,
            }
        },
        JsEvent::Declarator { binding, init } => {
            match init {
                Some(ii) => {
                    if ii.string_arg is Some && !span_in(st.dyn_spans, ii.span) {
                        JsStateV {
                            imports: st.imports.push(
                                ImportV {
                                    kind: ImportKind::AsyncDynamic,
                                    module_id: 0,
                                    source_request: ii.string_arg.unwrap()@,
                                    span: ii.span,
                                    symbols: spec_import_pat(binding),
                                    type_only: false,
                                },
                            ),
                            dyn_spans: st.dyn_spans.push(ii.span),
                            stats: StatsV {
                                dynamic_import_count: sat_inc(st.stats.dynamic_import_count),
                                ..st.stats
                            },
                            ..st
                        }
                    } else {
                        st
                    }
                },
                None => st,
            }
        },
    }
}

pub open spec fn spec_js_init() -> JsStateV {
    JsStateV {
        imports: Seq::empty(),
        exports: Seq::empty(),
        stats: StatsV {
            dynamic_import_count: 0,
            export_statements: 0,
            exports_default: false,
            import_statements: 0,
            other_statements: 0,
            require_count: 0,
        },
        dyn_spans: Seq::empty(),
        req_spans: Seq::empty(),
    }
}

/// The state after a whole sequence of records.
pub open spec fn spec_js_fold(st: JsStateV, events: Seq<JsEvent>) -> JsStateV
    decreases events.len(),
{
    if events.len() == 0 {
        st
    } else {
        spec_js_fold(spec_js_step(st, events[0]), events.drop_first())
    }
}

// ---------------------------------------------------------------------------
// The span-level deduplication of dynamic imports.
// ---------------------------------------------------------------------------

/// Every dynamic import's call site is on record, and no two dynamic imports
/// share one.
pub open spec fn dyn_spans_inv(st: JsStateV) -> bool {
    &&& forall|i: int|
        0 <= i < st.imports.len() && (#[trigger] st.imports[i]).kind == ImportKind::AsyncDynamic
            ==> span_in(st.dyn_spans, st.imports[i].span)
    &&& forall|i: int, j: int|
        0 <= i < j < st.imports.len() && (#[trigger] st.imports[i]).kind
            == ImportKind::AsyncDynamic && (#[trigger] st.imports[j]).kind
            == ImportKind::AsyncDynamic ==> st.imports[i].span != st.imports[j].span
}

proof fn lemma_step_dyn_inv(st: JsStateV, e: JsEvent)
    requires
        dyn_spans_inv(st),
    ensures
        dyn_spans_inv(spec_js_step(st, e)),
{
    let post = spec_js_step(st, e);
    assert forall|i: int|
        0 <= i < post.imports.len() && (#[trigger] post.imports[i]).kind
            == ImportKind::AsyncDynamic implies span_in(post.dyn_spans, post.imports[i].span) by {
        if i < st.imports.len() {
            assert(post.imports[i] == st.imports[i]);
            let w = choose|w: int|
                0 <= w < st.dyn_spans.len() && st.dyn_spans[w] == st.imports[i].span;
            assert(post.dyn_spans[w] == st.imports[i].span);
        } else {
            assert(span_in(post.dyn_spans, post.imports[i].span)) by {
                assert(post.dyn_spans[post.dyn_spans.len() - 1] == post.imports[i].span);
            }
        }
    }
    assert forall|i: int, j: int|
        0 <= i < j < post.imports.len() && (#[trigger] post.imports[i]).kind
            == ImportKind::AsyncDynamic && (#[trigger] post.imports[j]).kind
            == ImportKind::AsyncDynamic implies post.imports[i].span != post.imports[j].span by {
        if j < st.imports.len() {
            assert(post.imports[i] == st.imports[i] && post.imports[j] == st.imports[j]);
        } else if i < st.imports.len() {
            assert(post.imports[i] == st.imports[i]);
            if post.imports[i].span == post.imports[j].span {
                assert(span_in(st.dyn_spans, st.imports[i].span));
            }
        }
    }
}

proof fn lemma_fold_dyn_inv(st: JsStateV, events: Seq<JsEvent>)
    requires
        dyn_spans_inv(st),
    ensures
        dyn_spans_inv(spec_js_fold(st, events)),
    decreases events.len(),
{
    if events.len() > 0 {
        lemma_step_dyn_inv(st, events[0]);
        lemma_fold_dyn_inv(spec_js_step(st, events[0]), events.drop_first());
    }
}

/// Law: however often a dynamic-import call site is met during the walk —
/// once at its declarator and once more at the expression itself — the
/// extraction holds at most one dynamic import per call site: the spans of
/// its dynamic imports are pairwise distinct.
pub proof fn lemma_dynamic_imports_deduplicated(events: Seq<JsEvent>)
    ensures
        ({
            let st = spec_js_fold(spec_js_init(), events);
            forall|i: int, j: int|
                0 <= i < j < st.imports.len() && (#[trigger] st.imports[i]).kind
                    == ImportKind::AsyncDynamic && (#[trigger] st.imports[j]).kind
                    == ImportKind::AsyncDynamic ==> st.imports[i].span != st.imports[j].span
        }),
{
    lemma_fold_dyn_inv(spec_js_init(), events);
}

// ---------------------------------------------------------------------------
// The executable extractor.
// ---------------------------------------------------------------------------

fn sat_inc_usize(x: usize) -> (r: usize)
    ensures
        r as int == sat_inc(x as int),
{
    if x < usize::MAX {
        x + 1
    } else {
        x
    }
}

fn span_contains(spans: &Vec<Span>, sp: Span) -> (r: bool)
    ensures
        r == span_in(spans@, sp),
{
    let mut i: usize = 0;
    while i < spans.len()
        invariant
            0 <= i <= spans@.len(),
            forall|j: int| 0 <= j < i ==> spans@[j] != sp,
        decreases spans@.len() - i,
    {
        if spans[i] == sp {
            return true;
        }
        i += 1;
    }
    false
}

fn string_eq(a: &String, b: &String) -> (r: bool)
    ensures
        r == (a@ == b@),
{
    let ac = crate::to_chars(a.as_str());
    let bc = crate::to_chars(b.as_str());
    crate::strutil::vec_eq(&ac, &bc)
}

fn string_eq_chars(s: &String, lit: &Vec<char>) -> (r: bool)
    ensures
        r == (s@ == lit@),
{
    let sc = crate::to_chars(s.as_str());
    crate::strutil::vec_eq(&sc, lit)
}

fn default_name() -> (r: String)
    ensures
        r@ == lit_default_name(),
{
    let v = vec!['d', 'e', 'f', 'a', 'u', 'l', 't'];
    proof {
        assert(v@ =~= lit_default_name());
    }
    crate::strutil::string_of(&v)
}

/// Collect the symbols that a binding pattern takes out of an imported
/// namespace.
#[verifier::loop_isolation(false)]
fn import_binding_pattern(pat: &BindingPat, list: &mut Vec<ImportedSymbol>)
    ensures
        view_symbols(final(list)@) =~= view_symbols(old(list)@) + spec_import_pat(*pat),
    decreases *pat,
{
    match pat {
        BindingPat::Ident(id) => {
            list.push(
                ImportedSymbol {
                    kind: ImportedKind::Namespace,
                    source_name: None,
                    symbol_id: id.symbol_id,
                    name: id.name.clone(),
                },
            );
        }
        BindingPat::Object { properties, rest } => {
            let mut i: usize = 0;
            proof {
                assert(properties@.skip(0) =~= properties@);
            }
            while i < properties.len()
                invariant
                    0 <= i <= properties@.len(),
                    view_symbols(list@) + spec_import_props(properties@.skip(i as int))
                        =~= view_symbols(old(list)@) + spec_import_props(properties@),
                decreases properties@.len() - i,
            {
                let ghost pre = list@;
                let prop = &properties[i];
                proof {
                    assert(properties@.skip(i as int)[0] == properties@[i as int]);
                    assert(properties@.skip(i as int).drop_first() =~= properties@.skip(
                        i + 1 as int,
                    ));
                }
                let dn = default_name();
                let is_default = match &prop.key {
                    Some(k) => string_eq_chars(k, &crate::to_chars(dn.as_str())),
                    None => false,
                };
                let kind = if is_default {
                    ImportedKind::Default
                } else {
                    ImportedKind::Value
                };
                match &prop.value {
                    BindingPat::Ident(id) => {
                        let renamed: Option<String> = match &prop.key {
                            Some(k) => if is_default || string_eq(k, &id.name) {
                                None
                            } else {
                                Some(k.clone())
                            },
                            None => None,
                        };
                        list.push(
                            ImportedSymbol {
                                kind: kind,
                                source_name: renamed,
                                symbol_id: id.symbol_id,
                                name: id.name.clone(),
                            },
                        );
                        proof {
                            assert(view_symbols(list@) =~= view_symbols(pre) + spec_import_prop(
                                properties@[i as int],
                            ));
                        }
                    }
                    _ => {
                        match &prop.key {
                            Some(k) => {
                                list.push(
                                    ImportedSymbol {
                                        kind: kind,
                                        source_name: None,
                                        symbol_id: None,
                                        name: k.clone(),
                                    },
                                );
                                proof {
                                    assert(view_symbols(list@) =~= view_symbols(pre)
                                        + spec_import_prop(properties@[i as int]));
                                }
                            }
                            None => {
                                proof {
                                    assert(view_symbols(list@) =~= view_symbols(pre)
                                        + spec_import_prop(properties@[i as int]));
                                }
                            }
                        }
                    }
                }
                i += 1;
            }
            proof {
                assert(properties@.skip(properties@.len() as int) =~= Seq::<ObjectProp>::empty());
            }
            let ghost after_props = list@;
            match rest {
                Some(b) => {
                    match &**b {
                        BindingPat::Ident(id) => {
                            list.push(
                                ImportedSymbol {
                                    kind: ImportedKind::Namespace,
                                    source_name: None,
                                    symbol_id: None,
                                    name: id.name.clone(),
                                },
                            );
                            proof {
                                assert(view_symbols(list@) =~= view_symbols(after_props) + seq![
                                    ImportedSymbolV {
                                        kind: ImportedKind::Namespace,
                                        source_name: None,
                                        symbol_id: None,
                                        name: id.name@,
                                    },
                                ]);
                            }
                        }
                        _ => {
                            proof {
                                assert(view_symbols(list@) =~= view_symbols(after_props)
                                    + Seq::<ImportedSymbolV>::empty());
                            }
                        }
                    }
                }
                None => {
                    proof {
                        assert(view_symbols(list@) =~= view_symbols(after_props) + Seq::<
                            ImportedSymbolV,
                        >::empty());
                    }
                }
            }
        }
        BindingPat::Array { .. } => {
            proof {
                assert(view_symbols(list@) =~= view_symbols(old(list)@) + Seq::<
                    ImportedSymbolV,
                >::empty());
            }
        }
        BindingPat::Assign(inner) => {
            import_binding_pattern(inner, list);
        }
    }
}

/// Collect the symbols an exported binding pattern declares.
#[verifier::loop_isolation(false)]
fn export_binding_pattern(pat: &BindingPat, list: &mut Vec<ExportedSymbol>)
    ensures
        view_esymbols(final(list)@) =~= view_esymbols(old(list)@) + spec_export_pat(*pat),
    decreases *pat,
{
    match pat {
        BindingPat::Ident(id) => {
            list.push(
                ExportedSymbol {
                    kind: ExportedKind::Value,
                    symbol_id: id.symbol_id,
                    name: id.name.clone(),
                },
            );
        }
        BindingPat::Object { properties, rest } => {
            let mut i: usize = 0;
            proof {
                assert(properties@.skip(0) =~= properties@);
            }
            while i < properties.len()
                invariant
                    0 <= i <= properties@.len(),
                    view_esymbols(list@) + spec_export_props(properties@.skip(i as int))
                        =~= view_esymbols(old(list)@) + spec_export_props(properties@),
                decreases properties@.len() - i,
            {
                proof {
                    assert(properties@.skip(i as int)[0] == properties@[i as int]);
                    assert(properties@.skip(i as int).drop_first() =~= properties@.skip(
                        i + 1 as int,
                    ));
                }
                export_binding_pattern(&properties[i].value, list);
                i += 1;
            }
            proof {
                assert(properties@.skip(properties@.len() as int) =~= Seq::<ObjectProp>::empty());
            }
            match rest {
                Some(b) => {
                    export_binding_pattern(b, list);
                }
                None => {}
            }
        }
        BindingPat::Array { elements, rest } => {
            let mut i: usize = 0;
            proof {
                assert(elements@.skip(0) =~= elements@);
            }
            while i < elements.len()
                invariant
                    0 <= i <= elements@.len(),
                    view_esymbols(list@) + spec_export_elems(elements@.skip(i as int))
                        =~= view_esymbols(old(list)@) + spec_export_elems(elements@),
                decreases elements@.len() - i,
            {
                proof {
                    assert(elements@.skip(i as int)[0] == elements@[i as int]);
                    assert(elements@.skip(i as int).drop_first() =~= elements@.skip(i + 1 as int));
                }
                match &elements[i] {
                    Some(p) => {
                        export_binding_pattern(p, list);
                    }
                    None => {}
                }
                i += 1;
            }
            proof {
                assert(elements@.skip(elements@.len() as int)
                    =~= Seq::<Option<BindingPat>>::empty());
            }
            match rest {
                Some(b) => {
                    export_binding_pattern(b, list);
                }
                None => {}
            }
        }
        BindingPat::Assign(inner) => {
            export_binding_pattern(inner, list);
        }
    }
}

impl ExtractImportsExports {
    pub fn new() -> (r: ExtractImportsExports)
        ensures
            r@ == spec_js_init(),
    {
        let r = ExtractImportsExports {
            imports: Vec::new(),
            exports: Vec::new(),
            stats: JavaScriptStats {
                dynamic_import_count: 0,
                export_statements: 0,
                exports_default: false,
                import_statements: 0,
                other_statements: 0,
                require_count: 0,
            },
            extracted_dynamic_imports: Vec::new(),
            extracted_requires: Vec::new(),
        };
        proof {
            assert(r@.imports =~= spec_js_init().imports);
            assert(r@.exports =~= spec_js_init().exports);
            assert(r@.dyn_spans =~= spec_js_init().dyn_spans);
            assert(r@.req_spans =~= spec_js_init().req_spans);
        }
        r
    }

    /// Take one record of the syntax walk into the state.
    #[verifier::loop_isolation(false)]
    #[verifier::rlimit(60)]
    pub fn apply_event(&mut self, e: &JsEvent)
        ensures
            final(self)@ == spec_js_step(old(self)@, *e),
    {
        let ghost st0 = self@;
        match e {
            JsEvent::Program { statements } => {
                let mut sv = self.stats;
                let ghost sv0 = sv@;
                let mut i: usize = 0;
                proof {
                    assert(statements@.skip(0) =~= statements@);
                }
                while i < statements.len()
                    invariant
                        0 <= i <= statements@.len(),
                        spec_count_stmts(sv0, statements@) == spec_count_stmts(
                            sv@,
                            statements@.skip(i as int),
                        ),
                    decreases statements@.len() - i,
                {
                    proof {
                        assert(statements@.skip(i as int)[0] == statements@[i as int]);
                        assert(statements@.skip(i as int).drop_first() =~= statements@.skip(
                            i + 1 as int,
                        ));
                    }
                    match statements[i] {
                        TopStatement::ImportDecl => {
                            sv.import_statements = sat_inc_usize(sv.import_statements);
                        }
                        TopStatement::ExportDecl => {
                            sv.export_statements = sat_inc_usize(sv.export_statements);
                        }
                        TopStatement::AwaitImportExpression => {}
                        TopStatement::Other => {
                            sv.other_statements = sat_inc_usize(sv.other_statements);
                        }
                    }
                    i += 1;
                }
                proof {
                    assert(statements@.skip(statements@.len() as int)
                        =~= Seq::<TopStatement>::empty());
                }
                self.stats = sv;
            }
            JsEvent::TsExportAssignment { span } => {
                let ghost pre = self.exports@;
                self.exports.push(
                    Export {
                        kind: ExportKind::Modern,
                        module_id: None,
                        source: None,
                        span: Some(*span),
                        symbols: vec![
                            ExportedSymbol {
                                kind: ExportedKind::Default,
                                symbol_id: None,
                                name: default_name(),
                            },
                        ],
                        type_only: false,
                    },
                );
                proof {
                    assert(view_exports(self.exports@) =~= spec_js_step(st0, *e).exports) by {
                        assert(self.exports@.last()@.symbols =~= seq![
                            ExportedSymbolV {
                                kind: ExportedKind::Default,
                                symbol_id: None,
                                name: lit_default_name(),
                            },
                        ]);
                    }
                }
            }
            JsEvent::Call { span, callee, argument_count, string_arg } => {
                let req = vec!['r', 'e', 'q', 'u', 'i', 'r', 'e'];
                proof {
                    assert(req@ =~= lit_require_name());
                }
                let is_req = match callee {
                    Some(c) => string_eq_chars(c, &req),
                    None => false,
                };
                if is_req && *argument_count == 1 {
                    match string_arg {
                        Some(sa) => {
                            if !span_contains(&self.extracted_requires, *span) {
                                self.extracted_requires.push(*span);
                                let ghost pre = self.imports@;
                                self.imports.push(
                                    Import {
                                        kind: ImportKind::SyncStatic,
                                        module_id: 0,
                                        source_request: sa.clone(),
                                        span: *span,
                                        symbols: Vec::new(),
                                        type_only: false,
                                    },
                                );
                                self.stats.require_count = sat_inc_usize(self.stats.require_count);
                                proof {
                                    assert(view_imports(self.imports@) =~= spec_js_step(
                                        st0,
                                        *e,
                                    ).imports) by {
                                        assert(self.imports@.last()@.symbols =~= Seq::<
                                            ImportedSymbolV,
                                        >::empty());
                                    }
                                }
                            }
                        }
                        None => {}
                    }
                }
            }
            JsEvent::ExportAll { span, source, is_type, exported } => {
                let kind = if *is_type {
                    ExportedKind::NamespaceType
                } else {
                    ExportedKind::Namespace
                };
                let name: String = match exported {
                    Some(n) => n.clone(),
                    None => {
                        let star = vec!['*'];
                        proof {
                            assert(star@ =~= lit_star_name());
                        }
                        crate::strutil::string_of(&star)
                    }
                };
                self.exports.push(
                    Export {
                        kind: ExportKind::Modern,
                        module_id: None,
                        source: Some(source.clone()),
                        span: Some(*span),
                        symbols: vec![ExportedSymbol { kind: kind, symbol_id: None, name: name }],
                        type_only: *is_type,
                    },
                );
                proof {
                    assert(view_exports(self.exports@) =~= spec_js_step(st0, *e).exports) by {
                        assert(self.exports@.last()@.symbols =~= spec_js_step(
                            st0,
                            *e,
                        ).exports.last().symbols);
                    }
                }
            }
            JsEvent::ExportDefault { span, decl } => {
                let mut symbols: Vec<ExportedSymbol> = Vec::new();
                let is_ts: bool;
                match decl {
                    DefaultDecl::Class { id: Some(id) } => {
                        symbols.push(
                            ExportedSymbol {
                                kind: ExportedKind::Default,
                                symbol_id: id.symbol_id,
                                name: id.name.clone(),
                            },
                        );
                        is_ts = false;
                    }
                    DefaultDecl::Function { id: Some(id) } => {
                        symbols.push(
                            ExportedSymbol {
                                kind: ExportedKind::Default,
                                symbol_id: id.symbol_id,
                                name: id.name.clone(),
                            },
                        );
                        is_ts = false;
                    }
                    DefaultDecl::Identifier { name } => {
                        symbols.push(
                            ExportedSymbol {
                                kind: ExportedKind::Default,
                                symbol_id: None,
                                name: name.clone(),
                            },
                        );
                        is_ts = false;
                    }
                    DefaultDecl::TsEnum { id } => {
                        symbols.push(
                            ExportedSymbol {
                                kind: ExportedKind::DefaultType,
                                symbol_id: id.symbol_id,
                                name: id.name.clone(),
                            },
                        );
                        is_ts = true;
                    }
                    DefaultDecl::TsInterface { id } => {
                        symbols.push(
                            ExportedSymbol {
                                kind: ExportedKind::DefaultType,
                                symbol_id: id.symbol_id,
                                name: id.name.clone(),
                            },
                        );
                        is_ts = true;
                    }
                    _ => {
                        symbols.push(
                            ExportedSymbol {
                                kind: ExportedKind::Default,
                                symbol_id: None,
                                name: default_name(),
                            },
                        );
                        is_ts = false;
                    }
                }
                self.exports.push(
                    Export {
                        kind: ExportKind::Modern,
                        module_id: None,
                        source: None,
                        span: Some(*span),
                        symbols: symbols,
                        type_only: is_ts,
                    },
                );
                self.stats.exports_default = true;
                proof {
                    assert(view_exports(self.exports@) =~= spec_js_step(st0, *e).exports) by {
                        assert(self.exports@.last()@.symbols =~= spec_default_syms(*decl));
                    }
                }
            }
            JsEvent::ExportNamed { span, export_kind_type, declaration, specifiers, source } => {
                let mut symbols: Vec<ExportedSymbol> = Vec::new();
                let mut is_decl_ts = false;
                match declaration {
                    Some(d) => {
                        match d {
                            NamedDecl::Variable { bindings } => {
                                let mut i: usize = 0;
                                proof {
                                    assert(bindings@.skip(0) =~= bindings@);
                                }
                                while i < bindings.len()
                                    invariant
                                        0 <= i <= bindings@.len(),
                                        view_esymbols(symbols@) + spec_export_bindings(
                                            bindings@.skip(i as int),
                                        ) =~= spec_export_bindings(bindings@),
                                    decreases bindings@.len() - i,
                                {
                                    proof {
                                        assert(bindings@.skip(i as int)[0] == bindings@[i as int]);
                                        assert(bindings@.skip(i as int).drop_first()
                                            =~= bindings@.skip(i + 1 as int));
                                    }
                                    export_binding_pattern(&bindings[i], &mut symbols);
                                    i += 1;
                                }
                                proof {
                                    assert(bindings@.skip(bindings@.len() as int) =~= Seq::<
                                        BindingPat,
                                    >::empty());
                                }
                            }
                            NamedDecl::Function { id } => {
                                symbols.push(
                                    ExportedSymbol {
                                        kind: ExportedKind::Value,
                                        symbol_id: id.symbol_id,
                                        name: id.name.clone(),
                                    },
                                );
                            }
                            NamedDecl::Class { id } => {
                                symbols.push(
                                    ExportedSymbol {
                                        kind: ExportedKind::Value,
                                        symbol_id: id.symbol_id,
                                        name: id.name.clone(),
                                    },
                                );
                            }
                            NamedDecl::TsTypeAlias { id } => {
                                symbols.push(
                                    ExportedSymbol {
                                        kind: ExportedKind::ValueType,
                                        symbol_id: id.symbol_id,
                                        name: id.name.clone(),
                                    },
                                );
                                is_decl_ts = true;
                            }
                            NamedDecl::TsInterface { id } => {
                                symbols.push(
                                    ExportedSymbol {
                                        kind: ExportedKind::ValueType,
                                        symbol_id: id.symbol_id,
                                        name: id.name.clone(),
                                    },
                                );
                                is_decl_ts = true;
                            }
                            NamedDecl::TsEnum { id } => {
                                symbols.push(
                                    ExportedSymbol {
                                        kind: ExportedKind::ValueType,
                                        symbol_id: id.symbol_id,
                                        name: id.name.clone(),
                                    },
                                );
                                is_decl_ts = true;
                            }
                            NamedDecl::TsModule { name } => {
                                symbols.push(
                                    ExportedSymbol {
                                        kind: ExportedKind::ValueType,
                                        symbol_id: None,
                                        name: name.clone(),
                                    },
                                );
                                is_decl_ts = true;
                            }
                            NamedDecl::TsImportEquals { id } => {
                                symbols.push(
                                    ExportedSymbol {
                                        kind: ExportedKind::ValueType,
                                        symbol_id: id.symbol_id,
                                        name: id.name.clone(),
                                    },
                                );
                                is_decl_ts = true;
                            }
                            NamedDecl::Other => {}
                        }
                    }
                    None => {}
                }
                let ghost decl_syms = view_esymbols(symbols@);
                proof {
                    assert(decl_syms =~= (match declaration {
                        Some(d) => spec_named_decl_syms(*d),
                        None => Seq::<ExportedSymbolV>::empty(),
                    }));
                }
                let mut i: usize = 0;
                while i < specifiers.len()
                    invariant
                        0 <= i <= specifiers@.len(),
                        view_esymbols(symbols@).len() == decl_syms.len() + i,
                        view_esymbols(symbols@).subrange(0, decl_syms.len() as int) =~= decl_syms,
                        forall|j: int|
                            0 <= j < i ==> view_esymbols(symbols@)[decl_syms.len() + j]
                                == (ExportedSymbolV {
                                kind: if *export_kind_type || specifiers@[j].is_type {
                                    ExportedKind::ValueType
                                } else {
                                    ExportedKind::Value
                                },
                                symbol_id: None,
                                name: specifiers@[j].local_name@,
                            }),
                    decreases specifiers@.len() - i,
                {
                    let sp = &specifiers[i];
                    symbols.push(
                        ExportedSymbol {
                            kind: if *export_kind_type || sp.is_type {
                                ExportedKind::ValueType
                            } else {
                                ExportedKind::Value
                            },
                            symbol_id: None,
                            name: sp.local_name.clone(),
                        },
                    );
                    i += 1;
                }
                if symbols.len() > 0 {
                    let src: Option<String> = match source {
                        Some(s) => Some(s.clone()),
                        None => None,
                    };
                    self.exports.push(
                        Export {
                            kind: ExportKind::Modern,
                            module_id: None,
                            source: src,
                            span: Some(*span),
                            symbols: symbols,
                            type_only: *export_kind_type || is_decl_ts,
                        },
                    );
                }
                proof {
                    let stepped = spec_js_step(st0, *e);
                    let specmap = Seq::new(
                        specifiers@.len(),
                        |j: int|
                            ExportedSymbolV {
                                kind: if *export_kind_type || specifiers@[j].is_type {
                                    ExportedKind::ValueType
                                } else {
                                    ExportedKind::Value
                                },
                                symbol_id: None,
                                name: specifiers@[j].local_name@,
                            },
                    );
                    if self.exports@.len() > st0.exports.len() {
                        assert(self.exports@.last()@.symbols =~= decl_syms + specmap);
                        assert(self.exports@.last()@.symbols =~= stepped.exports.last().symbols);
                        assert(view_exports(self.exports@) =~= stepped.exports);
                    } else {
                        assert(view_exports(self.exports@) =~= stepped.exports);
                    }
                }
            }
            JsEvent::ImportDecl { span, source, is_type, specifiers } => {
                match specifiers {
                    Some(list) => {
                        let mut symbols: Vec<ImportedSymbol> = Vec::new();
                        let mut i: usize = 0;
                        while i < list.len()
                            invariant
                                0 <= i <= list@.len(),
                                symbols@.len() == i,
                                forall|j: int|
                                    0 <= j < i ==> symbols@[j]@ == spec_import_specifier(
                                        list@[j],
                                        *is_type,
                                    ),
                            decreases list@.len() - i,
                        {
                            match &list[i] {
                                ImportSpecifierInfo::Named { imported, local, is_type: sp_t } => {
                                    let renamed: Option<String> = if string_eq(
                                        imported,
                                        &local.name,
                                    ) {
                                        None
                                    } else {
                                        Some(imported.clone())
                                    };
                                    symbols.push(
                                        ImportedSymbol {
                                            kind: if *is_type || *sp_t {
                                                ImportedKind::ValueType
                                            } else {
                                                ImportedKind::Value
                                            },
                                            source_name: renamed,
                                            symbol_id: local.symbol_id,
                                            name: local.name.clone(),
                                        },
                                    );
                                }
                                ImportSpecifierInfo::Default { local } => {
                                    symbols.push(
                                        ImportedSymbol {
                                            kind: if *is_type {
                                                ImportedKind::DefaultType
                                            } else {
                                                ImportedKind::Default
                                            },
                                            source_name: None,
                                            symbol_id: local.symbol_id,
                                            name: local.name.clone(),
                                        },
                                    );
                                }
                                ImportSpecifierInfo::Namespace { local } => {
                                    symbols.push(
                                        ImportedSymbol {
                                            kind: if *is_type {
                                                ImportedKind::NamespaceType
                                            } else {
                                                ImportedKind::Namespace
                                            },
                                            source_name: None,
                                            symbol_id: local.symbol_id,
                                            name: local.name.clone(),
                                        },
                                    );
                                }
                            }
                            i += 1;
                        }
                        if symbols.len() > 0 {
                            self.imports.push(
                                Import {
                                    kind: ImportKind::AsyncStatic,
                                    module_id: 0,
                                    source_request: source.clone(),
                                    span: *span,
                                    symbols: symbols,
                                    type_only: *is_type,
                                },
                            );
                        }
                        proof {
                            let stepped = spec_js_step(st0, *e);
                            let specmap = Seq::new(
                                list@.len(),
                                |j: int| spec_import_specifier(list@[j], *is_type),
                            );
                            if self.imports@.len() > st0.imports.len() {
                                assert(self.imports@.last()@.symbols =~= specmap);
                                assert(self.imports@.last()@.symbols
                                    =~= stepped.imports.last().symbols);
                                assert(view_imports(self.imports@) =~= stepped.imports);
                            } else {
                                assert(view_imports(self.imports@) =~= stepped.imports);
                            }
                        }
                    }
                    None => {}
                }
            }
            JsEvent::ImportExpression { span, string_arg } => {
                match string_arg {
                    Some(sa) => {
                        if !span_contains(&self.extracted_dynamic_imports, *span) {
                            self.extracted_dynamic_imports.push(*span);
                            self.imports.push(
                                Import {
                                    kind: ImportKind::AsyncDynamic,
                                    module_id: 0,
                                    source_request: sa.clone(),
                                    span: *span,
                                    symbols: Vec::new(),
                                    type_only: false,
                                },
                            );
                            self.stats.dynamic_import_count = sat_inc_usize(
                                self.stats.dynamic_import_count,
                            );
                            proof {
                                assert(view_imports(self.imports@) =~= spec_js_step(
                                    st0,
                                    *e,
                                ).imports) by {
                                    assert(self.imports@.last()@.symbols =~= Seq::<
                                        ImportedSymbolV,
                                    >::empty());
                                }
                            }
                        }
                    }
                    None => {}
                }
            }
            JsEvent::StaticMember { span, object, property } => {
                let exports_lit = vec!['e', 'x', 'p', 'o', 'r', 't', 's'];
                let module_lit = vec!['m', 'o', 'd', 'u', 'l', 'e'];
                proof {
                    assert(exports_lit@ =~= lit_exports_name());
                    assert(module_lit@ =~= lit_module_name());
                }
                let obj_is_exports = match object {
                    Some(o) => string_eq_chars(o, &exports_lit),
                    None => false,
                };
                let obj_is_module = match object {
                    Some(o) => string_eq_chars(o, &module_lit),
                    None => false,
                };
                if obj_is_exports && property.as_str().unicode_len() > 0 {
                    self.exports.push(
                        Export {
                            kind: ExportKind::Legacy,
                            module_id: None,
                            source: None,
                            span: Some(*span),
                            symbols: vec![
                                ExportedSymbol {
                                    kind: ExportedKind::Value,
                                    symbol_id: None,
                                    name: property.clone(),
                                },
                            ],
                            type_only: false,
                        },
                    );
                    proof {
                        assert(view_exports(self.exports@) =~= spec_js_step(st0, *e).exports) by {
                            assert(self.exports@.last()@.symbols =~= spec_js_step(
                                st0,
                                *e,
                            ).exports.last().symbols);
                        }
                    }
                } else if obj_is_module && string_eq_chars(property, &exports_lit) {
                    self.exports.push(
                        Export {
                            kind: ExportKind::Legacy,
                            module_id: None,
                            source: None,
                            span: Some(*span),
                            symbols: vec![
                                ExportedSymbol {
                                    kind: ExportedKind::Default,
                                    symbol_id: None,
                                    name: default_name(),
                                },
                            ],
                            type_only: false,
                        },
                    );
                    proof {
                        assert(view_exports(self.exports@) =~= spec_js_step(st0, *e).exports) by {
                            assert(self.exports@.last()@.symbols =~= spec_js_step(
                                st0,
                                *e,
                            ).exports.last().symbols);
                        }
                    }
                }
            }
            JsEvent::TsImportEquals { span, id, is_type, external_source } => {
                match external_source {
                    Some(src) => {
                        self.imports.push(
                            Import {
                                kind: ImportKind::SyncStatic,
                                module_id: 0,
                                source_request: src.clone(),
                                span: *span,
                                symbols: vec![
                                    ImportedSymbol {
                                        kind: ImportedKind::Default,
                                        source_name: None,
                                        symbol_id: id.symbol_id,
                                        name: id.name.clone(),
                                    },
                                ],
                                type_only: *is_type,
                            },
                        );
                        proof {
                            assert(view_imports(self.imports@) =~= spec_js_step(
                                st0,
                                *e,
                            ).imports) by {
                                assert(self.imports@.last()@.symbols =~= spec_js_step(
                                    st0,
                                    *e,
                                ).imports.last().symbols);
                            }
                        }
                    }
                    None => {}
                }
            }
            JsEvent::Declarator { binding, init } => {
                match init {
                    Some(ii) => {
                        match &ii.string_arg {
                            Some(sa) => {
                                if !span_contains(&self.extracted_dynamic_imports, ii.span) {
                                    self.extracted_dynamic_imports.push(ii.span);
                                    let mut symbols: Vec<ImportedSymbol> = Vec::new();
                                    import_binding_pattern(binding, &mut symbols);
                                    proof {
                                        assert(view_symbols(symbols@) =~= spec_import_pat(
                                            *binding,
                                        ));
                                    }
                                    self.imports.push(
                                        Import {
                                            kind: ImportKind::AsyncDynamic,
                                            module_id: 0,
                                            source_request: sa.clone(),
                                            span: ii.span,
                                            symbols: symbols,
                                            type_only: false,
                                        },
                                    );
                                    self.stats.dynamic_import_count = sat_inc_usize(
                                        self.stats.dynamic_import_count,
                                    );
                                    proof {
                                        assert(view_imports(self.imports@) =~= spec_js_step(
                                            st0,
                                            *e,
                                        ).imports);
                                    }
                                }
                            }
                            None => {}
                        }
                    }
                    None => {}
                }
            }
        }
    }

    /// Run the whole walk.
    pub fn extract(events: &Vec<JsEvent>) -> (r: ExtractImportsExports)
        ensures
            r@ == spec_js_fold(spec_js_init(), events@),
    {
        let mut st = ExtractImportsExports::new();
        let mut i: usize = 0;
        proof {
            assert(events@.skip(0) =~= events@);
        }
        while i < events.len()
            invariant
                0 <= i <= events@.len(),
                spec_js_fold(spec_js_init(), events@) == spec_js_fold(
                    st@,
                    events@.skip(i as int),
                ),
            decreases events@.len() - i,
        {
            proof {
                assert(events@.skip(i as int)[0] == events@[i as int]);
                assert(events@.skip(i as int).drop_first() =~= events@.skip(i + 1 as int));
            }
            st.apply_event(&events[i]);
            i += 1;
        }
        proof {
            assert(events@.skip(events@.len() as int) =~= Seq::<JsEvent>::empty());
        }
        st
    }
}

// ---------------------------------------------------------------------------
// The module format of a JavaScript file.
// ---------------------------------------------------------------------------

#[derive(Clone, Copy, PartialEq, Eq, Structural, Debug)]
pub enum JavaScriptPackageType {
    Unknown,
    /// A `.cjs` or `.cts` file.
    Cjs,
    /// `"type": "commonjs"` in the nearest manifest.
    CjsPackageJson,
    /// A `.mjs` or `.mts` file.
    Mjs,
    /// `"type": "module"` in the nearest manifest.
    EsmPackageJson,
}

pub open spec fn spec_determine_package_type(
    path: Seq<char>,
    manifest_type: Option<Seq<char>>,
) -> JavaScriptPackageType {
    let e = crate::strutil::spec_ext_of(path);
    if e == Some(seq!['c', 'j', 's']) || e == Some(seq!['c', 't', 's']) {
        JavaScriptPackageType::Cjs
    } else if e == Some(seq!['m', 'j', 's']) || e == Some(seq!['m', 't', 's']) {
        JavaScriptPackageType::Mjs
    } else if manifest_type == Some(seq!['c', 'j', 's']) || manifest_type == Some(
        seq!['c', 'o', 'm', 'm', 'o', 'n', 'j', 's'],
    ) {
        JavaScriptPackageType::CjsPackageJson
    } else if manifest_type == Some(seq!['m', 'o', 'd', 'u', 'l', 'e']) {
        JavaScriptPackageType::EsmPackageJson
    } else {
        JavaScriptPackageType::Unknown
    }
}

impl JavaScriptPackageType {
    /// Decide the module format from the file extension, then from the
    /// `type` field of the nearest manifest.
    pub fn determine(path: &String, manifest_type: &Option<String>) -> (r: JavaScriptPackageType)
        ensures
            r == spec_determine_package_type(path@, crate::module::view_opt_chars(*manifest_type)),
    {
        let pc = crate::to_chars(path.as_str());
        let cjs = vec!['c', 'j', 's'];
        let cts = vec!['c', 't', 's'];
        let mjs = vec!['m', 'j', 's'];
        let mts = vec!['m', 't', 's'];
        let commonjs = vec!['c', 'o', 'm', 'm', 'o', 'n', 'j', 's'];
        let module_kw = vec!['m', 'o', 'd', 'u', 'l', 'e'];
        proof {
            assert(cjs@ =~= seq!['c', 'j', 's']);
            assert(cts@ =~= seq!['c', 't', 's']);
            assert(mjs@ =~= seq!['m', 'j', 's']);
            assert(mts@ =~= seq!['m', 't', 's']);
            assert(commonjs@ =~= seq!['c', 'o', 'm', 'm', 'o', 'n', 'j', 's']);
            assert(module_kw@ =~= seq!['m', 'o', 'd', 'u', 'l', 'e']);
        }
        match crate::strutil::ext_of(&pc) {
            Some(e) => {
                if crate::strutil::vec_eq(&e, &cjs) || crate::strutil::vec_eq(&e, &cts) {
                    return JavaScriptPackageType::Cjs;
                }
                if crate::strutil::vec_eq(&e, &mjs) || crate::strutil::vec_eq(&e, &mts) {
                    return JavaScriptPackageType::Mjs;
                }
            }
            None => {}
        }
        match manifest_type {
            Some(t) => {
                let tc = crate::to_chars(t.as_str());
                if crate::strutil::vec_eq(&tc, &cjs) || crate::strutil::vec_eq(&tc, &commonjs) {
                    return JavaScriptPackageType::CjsPackageJson;
                }
                if crate::strutil::vec_eq(&tc, &module_kw) {
                    return JavaScriptPackageType::EsmPackageJson;
                }
            }
            None => {}
        }
        JavaScriptPackageType::Unknown
    }

    pub fn is_esm(&self) -> (r: bool)
        ensures
            r == (*self == JavaScriptPackageType::Mjs || *self
                == JavaScriptPackageType::EsmPackageJson),
    {
        match self {
            JavaScriptPackageType::Mjs => true,
            JavaScriptPackageType::EsmPackageJson => true,
            _ => false,
        }
    }

    pub fn is_cjs(&self) -> (r: bool)
        ensures
            r == (*self == JavaScriptPackageType::Cjs || *self
                == JavaScriptPackageType::CjsPackageJson),
    {
        match self {
            JavaScriptPackageType::Cjs => true,
            JavaScriptPackageType::CjsPackageJson => true,
            _ => false,
        }
    }
}

/// The same classification under the name the stand-alone module creator
/// uses.
#[derive(Clone, Copy, PartialEq, Eq, Structural, Debug)]
pub enum PackageType {
    Unknown,
    Cjs,
    CjsPackageJson,
    Mjs,
    EsmPackageJson,
}

impl PackageType {
    pub fn is_esm(&self) -> (r: bool)
        ensures
            r == (*self == PackageType::Mjs || *self == PackageType::EsmPackageJson),
    {
        match self {
            PackageType::Mjs => true,
            PackageType::EsmPackageJson => true,
            _ => false,
        }
    }

    pub fn is_commonjs(&self) -> (r: bool)
        ensures
            r == (*self == PackageType::Cjs || *self == PackageType::CjsPackageJson),
    {
        match self {
            PackageType::Cjs => true,
            PackageType::CjsPackageJson => true,
            _ => false,
        }
    }
}

} // verus!
