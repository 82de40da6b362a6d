use vstd::prelude::*;

use crate::module::{
    Export, ExportKind, ExportV, ExportedKind, ExportedSymbol, ExportedSymbolV, Import, ImportKind,
    ImportV, ImportedKind, ImportedSymbol, ImportedSymbolV, SourceKind, Span, view_esymbols,
    view_symbols,
};
use crate::js::{view_exports, view_imports, JavaScriptStats, lit_default_name};

verus! {

// ---------------------------------------------------------------------------
// Dispatch by file extension, and the extractors for the non-JavaScript
// source kinds.
// ---------------------------------------------------------------------------

#[derive(Clone, Copy, PartialEq, Eq, Structural, Debug)]
pub enum TextModuleKind {
    Graphql,
    Html,
    Less,
    Sass,
    Scss,
    Sourcemap,
    Stylus,
    Svg,
    Unknown,
}

#[derive(Clone, Copy, PartialEq, Eq, Structural, Debug)]
pub enum MediaModuleKind {
    Audio,
    Image,
    Video,
}

/// Which loader a lowercased file extension selects.
#[derive(Clone, Copy, PartialEq, Eq, Structural, Debug)]
pub enum SourceCategory {
    Css,
    JavaScript,
    Json,
    Yaml,
    Text,
    /// Anything else falls into the media path, which accepts only the
    /// audio, image and video tables.
    Media,
}

pub open spec fn is_css_ext(e: Seq<char>) -> bool {
    e == seq!['c', 's', 's']
}

pub open spec fn is_js_ext(e: Seq<char>) -> bool {
    ||| e == seq!['j', 's']
    ||| e == seq!['j', 's', 'x']
    ||| e == seq!['t', 's']
    ||| e == seq!['t', 's', 'x']
    ||| e == seq!['m', 't', 's']
    ||| e == seq!['c', 't', 's']
    ||| e == seq!['m', 'j', 's']
    ||| e == seq!['c', 'j', 's']
}

pub open spec fn is_json_ext(e: Seq<char>) -> bool {
    ||| e == seq!['j', 's', 'o', 'n']
    ||| e == seq!['j', 's', 'o', 'n', 'c']
    ||| e == seq!['j', 's', 'o', 'n', '5']
}

pub open spec fn is_yaml_ext(e: Seq<char>) -> bool {
    ||| e == seq!['y', 'a', 'm', 'l']
    ||| e == seq!['y', 'm', 'l']
}

pub open spec fn is_text_ext(e: Seq<char>) -> bool {
    ||| e == seq!['g', 'q', 'l']
    ||| e == seq!['g', 'r', 'a', 'p', 'h', 'q', 'l']
    ||| e == seq!['h', 't', 'm', 'l']
    ||| e == seq!['l', 'e', 's', 's']
    ||| e == seq!['m', 'a', 'p']
    ||| e == seq!['s', 'a', 's', 's']
    ||| e == seq!['s', 'c', 's', 's']
    ||| e == seq!['s', 't', 'y', 'l']
    ||| e == seq!['s', 'v', 'g']
}

pub open spec fn is_audio_ext(e: Seq<char>) -> bool {
    ||| e == seq!['a', 'a', 'c']
    ||| e == seq!['m', 'i', 'd']
    ||| e == seq!['m', 'i', 'd', 'i']
    ||| e == seq!['m', 'p', '3']
    ||| e == seq!['o', 'g', 'g']
    ||| e == seq!['o', 'g', 'a']
    ||| e == seq!['m', 'o', 'g', 'g']
    ||| e == seq!['o', 'p', 'u', 's']
    ||| e == seq!['w', 'e', 'b', 'a']
    ||| e == seq!['w', 'a', 'v']
}

pub open spec fn is_image_ext(e: Seq<char>) -> bool {
    ||| e == seq!['a', 'p', 'n', 'g']
    ||| e == seq!['a', 'v', 'i', 'f']
    ||| e == seq!['b', 'm', 'p']
    ||| e == seq!['g', 'i', 'f']
    ||| e == seq!['i', 'c', 'o']
    ||| e == seq!['j', 'p', 'g']
    ||| e == seq!['j', 'p', 'e', 'g']
    ||| e == seq!['j', 'p', 'e']
    ||| e == seq!['j', 'i', 'f']
    ||| e == seq!['j', 'f', 'i', 'f']
    ||| e == seq!['p', 'j', 'p', 'e', 'g']
    ||| e == seq!['p', 'j', 'p']
    ||| e == seq!['p', 'n', 'g']
    ||| e == seq!['t', 'i', 'f']
    ||| e == seq!['t', 'i', 'f', 'f']
    ||| e == seq!['w', 'e', 'b', 'p']
}

pub open spec fn is_video_ext(e: Seq<char>) -> bool {
    ||| e == seq!['a', 'v', 'i']
    ||| e == seq!['m', 'p', '4']
    ||| e == seq!['m', 'p', 'e', 'g']
    ||| e == seq!['o', 'g', 'v']
    ||| e == seq!['w', 'e', 'b', 'm']
}

/// The dispatch table of the module loader.
pub open spec fn spec_category_of(e: Seq<char>) -> SourceCategory {
    if is_css_ext(e) {
        SourceCategory::Css
    } else if is_js_ext(e) {
        SourceCategory::JavaScript
    } else if is_json_ext(e) {
        SourceCategory::Json
    } else if is_yaml_ext(e) {
        SourceCategory::Yaml
    } else if is_text_ext(e) {
        SourceCategory::Text
    } else {
        SourceCategory::Media
    }
}

pub open spec fn spec_media_kind_of(e: Seq<char>) -> Option<MediaModuleKind> {
    if is_audio_ext(e) {
        Some(MediaModuleKind::Audio)
    } else if is_image_ext(e) {
        Some(MediaModuleKind::Image)
    } else if is_video_ext(e) {
        Some(MediaModuleKind::Video)
    } else {
        None
    }
}

pub open spec fn spec_text_kind_of(e: Seq<char>) -> TextModuleKind {
    if e == seq!['g', 'q', 'l'] || e == seq!['g', 'r', 'a', 'p', 'h', 'q', 'l'] {
        TextModuleKind::Graphql
    } else if e == seq!['h', 't', 'm', 'l'] {
        TextModuleKind::Html
    } else if e == seq!['l', 'e', 's', 's'] {
        TextModuleKind::Less
    } else if e == seq!['m', 'a', 'p'] {
        TextModuleKind::Sourcemap
    } else if e == seq!['s', 'a', 's', 's'] {
        TextModuleKind::Sass
    } else if e == seq!['s', 'c', 's', 's'] {
        TextModuleKind::Scss
    } else if e == seq!['s', 't', 'y', 'l'] {
        TextModuleKind::Stylus
    } else if e == seq!['s', 'v', 'g'] {
        TextModuleKind::Svg
    } else {
        TextModuleKind::Unknown
    }
}

fn is2(e: &Vec<char>, a: char, b: char) -> (r: bool)
    ensures
        r == (e@ == seq![a, b]),
{
    let r = e.len() == 2 && e[0] == a && e[1] == b;
    proof {
        if r {
            assert(e@ =~= seq![a, b]);
        }
    }
    r
}

fn is3(e: &Vec<char>, a: char, b: char, c: char) -> (r: bool)
    ensures
        r == (e@ == seq![a, b, c]),
{
    let r = e.len() == 3 && e[0] == a && e[1] == b && e[2] == c;
    proof {
        if r {
            assert(e@ =~= seq![a, b, c]);
        }
    }
    r
}

fn is4(e: &Vec<char>, a: char, b: char, c: char, d: char) -> (r: bool)
    ensures
        r == (e@ == seq![a, b, c, d]),
{
    let r = e.len() == 4 && e[0] == a && e[1] == b && e[2] == c && e[3] == d;
    proof {
        if r {
            assert(e@ =~= seq![a, b, c, d]);
        }
    }
    r
}

fn is5(e: &Vec<char>, a: char, b: char, c: char, d: char, f: char) -> (r: bool)
    ensures
        r == (e@ == seq![a, b, c, d, f]),
{
    let r = e.len() == 5 && e[0] == a && e[1] == b && e[2] == c && e[3] == d && e[4] == f;
    proof {
        if r {
            assert(e@ =~= seq![a, b, c, d, f]);
        }
    }
    r
}

fn is7(e: &Vec<char>, a: char, b: char, c: char, d: char, f: char, g: char, h: char) -> (r: bool)
    ensures
        r == (e@ == seq![a, b, c, d, f, g, h]),
{
    let r = e.len() == 7 && e[0] == a && e[1] == b && e[2] == c && e[3] == d && e[4] == f && e[5]
        == g && e[6] == h;
    proof {
        if r {
            assert(e@ =~= seq![a, b, c, d, f, g, h]);
        }
    }
    r
}

/// Pick the loader for a lowercased extension.  The dispatch is total: every
/// extension outside the other tables falls into the media path.
pub fn category_of(ext: &Vec<char>) -> (r: SourceCategory)
    ensures
        r == spec_category_of(ext@),
{
    if is3(ext, 'c', 's', 's') {
        SourceCategory::Css
    } else if is2(ext, 'j', 's') || is3(ext, 'j', 's', 'x') || is2(ext, 't', 's') || is3(
        ext,
        't',
        's',
        'x',
    ) || is3(ext, 'm', 't', 's') || is3(ext, 'c', 't', 's') || is3(ext, 'm', 'j', 's') || is3(
        ext,
        'c',
        'j',
        's',
    ) {
        SourceCategory::JavaScript
    } else if is4(ext, 'j', 's', 'o', 'n') || is5(ext, 'j', 's', 'o', 'n', 'c') || is5(
        ext,
        'j',
        's',
        'o',
        'n',
        '5',
    ) {
        SourceCategory::Json
    } else if is4(ext, 'y', 'a', 'm', 'l') || is3(ext, 'y', 'm', 'l') {
        SourceCategory::Yaml
    } else if is3(ext, 'g', 'q', 'l') || is7(ext, 'g', 'r', 'a', 'p', 'h', 'q', 'l') || is4(
        ext,
        'h',
        't',
        'm',
        'l',
    ) || is4(ext, 'l', 'e', 's', 's') || is3(ext, 'm', 'a', 'p') || is4(ext, 's', 'a', 's', 's')
        || is4(ext, 's', 'c', 's', 's') || is4(ext, 's', 't', 'y', 'l') || is3(ext, 's', 'v', 'g') {
        SourceCategory::Text
    } else {
        SourceCategory::Media
    }
}

/// Classify a media extension.  `None` is the `UnsupportedFileType` case:
/// the extension is in none of the audio, image and video tables.
pub fn media_kind_of(ext: &Vec<char>) -> (r: Option<MediaModuleKind>)
    ensures
        r == spec_media_kind_of(ext@),
{
    if is3(ext, 'a', 'a', 'c') || is3(ext, 'm', 'i', 'd') || is4(ext, 'm', 'i', 'd', 'i') || is3(
        ext,
        'm',
        'p',
        '3',
    ) || is3(ext, 'o', 'g', 'g') || is3(ext, 'o', 'g', 'a') || is4(ext, 'm', 'o', 'g', 'g') || is4(
        ext,
        'o',
        'p',
        'u',
        's',
    ) || is4(ext, 'w', 'e', 'b', 'a') || is3(ext, 'w', 'a', 'v') {
        Some(MediaModuleKind::Audio)
    } else if is4(ext, 'a', 'p', 'n', 'g') || is4(ext, 'a', 'v', 'i', 'f') || is3(
        ext,
        'b',
        'm',
        'p',
    ) || is3(ext, 'g', 'i', 'f') || is3(ext, 'i', 'c', 'o') || is3(ext, 'j', 'p', 'g') || is4(
        ext,
        'j',
        'p',
        'e',
        'g',
    ) || is3(ext, 'j', 'p', 'e') || is3(ext, 'j', 'i', 'f') || is4(ext, 'j', 'f', 'i', 'f') || is5(
        ext,
        'p',
        'j',
        'p',
        'e',
        'g',
    ) || is3(ext, 'p', 'j', 'p') || is3(ext, 'p', 'n', 'g') || is3(ext, 't', 'i', 'f') || is4(
        ext,
        't',
        'i',
        'f',
        'f',
    ) || is4(ext, 'w', 'e', 'b', 'p') {
        Some(MediaModuleKind::Image)
    } else if is3(ext, 'a', 'v', 'i') || is3(ext, 'm', 'p', '4') || is4(ext, 'm', 'p', 'e', 'g')
        || is3(ext, 'o', 'g', 'v') || is4(ext, 'w', 'e', 'b', 'm') {
        Some(MediaModuleKind::Video)
    } else {
        None
    }
}

/// Classify a text extension.
pub fn text_kind_of(ext: &Vec<char>) -> (r: TextModuleKind)
    ensures
        r == spec_text_kind_of(ext@),
{
    if is3(ext, 'g', 'q', 'l') || is7(ext, 'g', 'r', 'a', 'p', 'h', 'q', 'l') {
        TextModuleKind::Graphql
    } else if is4(ext, 'h', 't', 'm', 'l') {
        TextModuleKind::Html
    } else if is4(ext, 'l', 'e', 's', 's') {
        TextModuleKind::Less
    } else if is3(ext, 'm', 'a', 'p') {
        TextModuleKind::Sourcemap
    } else if is4(ext, 's', 'a', 's', 's') {
        TextModuleKind::Sass
    } else if is4(ext, 's', 'c', 's', 's') {
        TextModuleKind::Scss
    } else if is4(ext, 's', 't', 'y', 'l') {
        TextModuleKind::Stylus
    } else if is3(ext, 's', 'v', 'g') {
        TextModuleKind::Svg
    } else {
        TextModuleKind::Unknown
    }
}

/// Law: the dispatch is total over the defined extensions, and the media
/// fallback rejects exactly the extensions outside its three tables.
pub proof fn lemma_dispatch_total(e: Seq<char>)
    ensures
        spec_category_of(e) != SourceCategory::Media ==> (is_css_ext(e) || is_js_ext(e)
            || is_json_ext(e) || is_yaml_ext(e) || is_text_ext(e)),
        spec_category_of(e) == SourceCategory::Media ==> (spec_media_kind_of(e) is None <==> !(
        is_audio_ext(e) || is_image_ext(e) || is_video_ext(e))),
{
}

// ---------------------------------------------------------------------------
// JSON and YAML documents: the whole document is a default export, and each
// top-level key of an object document is a named export.
// ---------------------------------------------------------------------------

/// What a decoded JSON or YAML document shows to the extractor: the string
/// keys of its root object, in order, or nothing when the root is no object.
#[derive(PartialEq, Eq, Debug)]
pub enum DocumentRoot {
    Object { keys: Vec<String> },
    Other,
}

pub open spec fn spec_document_symbols(root: DocumentRoot) -> Seq<ExportedSymbolV> {
    seq![
        ExportedSymbolV { kind: ExportedKind::Default, symbol_id: None, name: lit_default_name() },
    ] + (match root {
        DocumentRoot::Object { keys } => Seq::new(
            keys@.len(),
            |i: int|
                ExportedSymbolV { kind: ExportedKind::Value, symbol_id: None, name: keys@[i]@ },
        ),
        DocumentRoot::Other => Seq::empty(),
    })
}

/// Build the one synthetic export of a JSON or YAML module.  A document
/// whose root is no object yields exactly the `default` symbol.
#[verifier::loop_isolation(false)]
pub fn document_export(root: &DocumentRoot) -> (r: Export)
    ensures
        r@.kind == ExportKind::Native,
        r@.module_id is None,
        r@.source is None,
        r@.span is None,
        r@.type_only == false,
        r@.symbols == spec_document_symbols(*root),
        *root is Other ==> r@.symbols.len() == 1,
{
    let mut symbols: Vec<ExportedSymbol> = Vec::new();
    let dn = {
        let v = vec!['d', 'e', 'f', 'a', 'u', 'l', 't'];
        proof {
            assert(v@ =~= lit_default_name());
        }
        crate::strutil::string_of(&v)
    };
    symbols.push(ExportedSymbol { kind: ExportedKind::Default, symbol_id: None, name: dn });
    match root {
        DocumentRoot::Object { keys } => {
            let mut i: usize = 0;
            while i < keys.len()
                invariant
                    0 <= i <= keys@.len(),
                    symbols@.len() == i + 1,
                    view_esymbols(symbols@) =~= spec_document_symbols(*root).subrange(
                        0,
                        i + 1 as int,
                    ),
                decreases keys@.len() - i,
            {
                symbols.push(
                    ExportedSymbol {
                        kind: ExportedKind::Value,
                        symbol_id: None,
                        name: keys[i].clone(),
                    },
                );
                proof {
                    assert(spec_document_symbols(*root).len() == 1 + keys@.len());
                    assert(spec_document_symbols(*root)[i + 1] == (ExportedSymbolV {
                        kind: ExportedKind::Value,
                        symbol_id: None,
                        name: keys@[i as int]@,
                    }));
                    assert(view_esymbols(symbols@) =~= spec_document_symbols(*root).subrange(
                        0,
                        i + 2 as int,
                    ));
                }
                i += 1;
            }
            proof {
                assert(view_esymbols(symbols@) =~= spec_document_symbols(*root));
            }
        }
        DocumentRoot::Other => {
            proof {
                assert(view_esymbols(symbols@) =~= spec_document_symbols(*root));
            }
        }
    }
    Export {
        kind: ExportKind::Native,
        module_id: None,
        source: None,
        span: None,
        symbols: symbols,
        type_only: false,
    }
}

// ---------------------------------------------------------------------------
// CSS modules: `composes: name from "specifier"` references become imports,
// merged by specifier; each exported class becomes a native export.
// ---------------------------------------------------------------------------

/// One reference that rendering a CSS module yields.
#[derive(PartialEq, Eq, Debug)]
pub enum CssModuleReference {
    /// `composes: name from "specifier"`.
    Dependency { name: String, specifier: String },
    /// A local or global reference, which crosses no file boundary.
    Local,
}

/// Merge one reference into the import list: into the import with the same
/// specifier when there is one, else as a fresh single-symbol import.
pub open spec fn spec_css_merge(imports: Seq<ImportV>, name: Seq<char>, specifier: Seq<char>)
    -> Seq<ImportV> {
    let found = spec_css_find(imports, specifier);
    if found == -1 {
        imports.push(
            ImportV {
                kind: ImportKind::SyncStatic,
                module_id: 0,
                source_request: specifier,
                span: Span { start: 0, end: 0 },
                symbols: seq![
                    ImportedSymbolV {
                        kind: ImportedKind::Value,
                        source_name: None,
                        symbol_id: None,
                        name: name,
                    },
                ],
                type_only: false,
            },
        )
    } else {
        imports.update(
            found,
            ImportV {
                symbols: imports[found].symbols.push(
                    ImportedSymbolV {
                        kind: ImportedKind::Value,
                        source_name: None,
                        symbol_id: None,
                        name: name,
                    },
                ),
                ..imports[found]
            },
        )
    }
}

/// The first import with the given specifier, `-1` if there is none.
pub open spec fn spec_css_find(imports: Seq<ImportV>, specifier: Seq<char>) -> int {
    spec_css_find_from(imports, specifier, 0)
}

pub open spec fn spec_css_find_from(imports: Seq<ImportV>, specifier: Seq<char>, i: int) -> int
    decreases imports.len() - i,
{
    if i < 0 || i >= imports.len() {
        -1
    } else if imports[i].source_request == specifier {
        i
    } else {
        spec_css_find_from(imports, specifier, i + 1)
    }
}

pub open spec fn spec_css_refs(imports: Seq<ImportV>, refs: Seq<CssModuleReference>) -> Seq<
    ImportV,
>
    decreases refs.len(),
{
    if refs.len() == 0 {
        imports
    } else {
        let rest = refs.drop_first();
        match refs[0] {
            CssModuleReference::Dependency { name, specifier } => spec_css_refs(
                spec_css_merge(imports, name@, specifier@),
                rest,
            ),
            CssModuleReference::Local => spec_css_refs(imports, rest),
        }
    }
}

proof fn lemma_css_find_at(imports: Seq<ImportV>, specifier: Seq<char>, from: int, f: int)
    requires
        0 <= from <= f < imports.len(),
        imports[f].source_request == specifier,
        forall|k: int| from <= k < f ==> (#[trigger] imports[k]).source_request != specifier,
    ensures
        spec_css_find_from(imports, specifier, from) == f,
    decreases f - from,
{
    if from < f {
        lemma_css_find_at(imports, specifier, from + 1, f);
    }
}

fn css_find(imports: &Vec<Import>, spec_chars: &Vec<char>) -> (r: Option<usize>)
    ensures
        match r {
            Some(f) => f < imports@.len() && spec_css_find(
                view_imports(imports@),
                spec_chars@,
            ) == f,
            None => spec_css_find(view_imports(imports@), spec_chars@) == -1,
        },
{
    let ghost pre = view_imports(imports@);
    let mut j: usize = 0;
    while j < imports.len()
        invariant
            0 <= j <= imports@.len(),
            pre == view_imports(imports@),
            forall|k: int| 0 <= k < j ==> (#[trigger] pre[k]).source_request != spec_chars@,
        decreases imports@.len() - j,
    {
        let jc = crate::to_chars(imports[j].source_request.as_str());
        if crate::strutil::vec_eq(&jc, spec_chars) {
            proof {
                lemma_css_find_at(pre, spec_chars@, 0, j as int);
            }
            return Some(j);
        }
        j += 1;
    }
    proof {
        lemma_css_find_props(pre, spec_chars@, 0);
        if spec_css_find(pre, spec_chars@) != -1 {
            let f = spec_css_find(pre, spec_chars@);
            assert(pre[f].source_request == spec_chars@);
        }
    }
    None
}

/// Merge a list of `composes` references into an import list.
#[verifier::loop_isolation(false)]
pub fn css_merge_references(imports: &mut Vec<Import>, refs: &Vec<CssModuleReference>)
    ensures
        view_imports(final(imports)@) == spec_css_refs(view_imports(old(imports)@), refs@),
{
    let mut i: usize = 0;
    proof {
        assert(refs@.skip(0) =~= refs@);
    }
    while i < refs.len()
        invariant
            0 <= i <= refs@.len(),
            spec_css_refs(view_imports(old(imports)@), refs@) == spec_css_refs(
                view_imports(imports@),
                refs@.skip(i as int),
            ),
        decreases refs@.len() - i,
    {
        proof {
            assert(refs@.skip(i as int)[0] == refs@[i as int]);
            assert(refs@.skip(i as int).drop_first() =~= refs@.skip(i + 1 as int));
        }
        match &refs[i] {
            CssModuleReference::Dependency { name, specifier } => {
                let ghost pre = view_imports(imports@);
                let spec_chars = crate::to_chars(specifier.as_str());
                match css_find(imports, &spec_chars) {
                    Some(f) => {
                        let mut taken = imports.remove(f);
                        taken.symbols.push(
                            ImportedSymbol {
                                kind: ImportedKind::Value,
                                source_name: None,
                                symbol_id: None,
                                name: name.clone(),
                            },
                        );
                        imports.insert(f, taken);
                        proof {
                            assert(view_imports(imports@) =~= spec_css_merge(
                                pre,
                                name@,
                                specifier@,
                            )) by {
                                assert(view_imports(imports@)[f as int].symbols
                                    =~= spec_css_merge(pre, name@, specifier@)[f as int].symbols);
                            }
                        }
                    }
                    None => {
                        imports.push(
                            Import {
                                kind: ImportKind::SyncStatic,
                                module_id: 0,
                                source_request: specifier.clone(),
                                span: Span { start: 0, end: 0 },
                                symbols: vec![
                                    ImportedSymbol {
                                        kind: ImportedKind::Value,
                                        source_name: None,
                                        symbol_id: None,
                                        name: name.clone(),
                                    },
                                ],
                                type_only: false,
                            },
                        );
                        proof {
                            assert(view_imports(imports@) =~= spec_css_merge(
                                pre,
                                name@,
                                specifier@,
                            )) by {
                                assert(view_imports(imports@).last().symbols =~= spec_css_merge(
                                    pre,
                                    name@,
                                    specifier@,
                                ).last().symbols);
                            }
                        }
                    }
                }
            }
            CssModuleReference::Local => {}
        }
        i += 1;
    }
    proof {
        assert(refs@.skip(refs@.len() as int) =~= Seq::<CssModuleReference>::empty());
    }
}

/// Law: merging keeps specifiers unique, so the same specifier composed many
/// times yields one import that gathers all the names.
pub proof fn lemma_css_imports_unique(imports: Seq<ImportV>, refs: Seq<CssModuleReference>)
    requires
        forall|a: int, b: int|
            0 <= a < b < imports.len() ==> (#[trigger] imports[a]).source_request
                != (#[trigger] imports[b]).source_request,
    ensures
        ({
            let out = spec_css_refs(imports, refs);
            forall|a: int, b: int|
                0 <= a < b < out.len() ==> (#[trigger] out[a]).source_request
                    != (#[trigger] out[b]).source_request
        }),
    decreases refs.len(),
{
    if refs.len() > 0 {
        match refs[0] {
            CssModuleReference::Dependency { name, specifier } => {
                let merged = spec_css_merge(imports, name@, specifier@);
                lemma_css_find_props(imports, specifier@, 0);
                assert forall|a: int, b: int|
                    0 <= a < b < merged.len() implies (#[trigger] merged[a]).source_request
                    != (#[trigger] merged[b]).source_request by {
                    let f = spec_css_find(imports, specifier@);
                    if f == -1 {
                        if b == merged.len() - 1 {
                            assert(merged[a] == imports[a]);
                            assert(merged[b].source_request == specifier@);
                        }
                    }
                }
                lemma_css_imports_unique(merged, refs.drop_first());
            }
            CssModuleReference::Local => {
                lemma_css_imports_unique(imports, refs.drop_first());
            }
        }
    }
}

proof fn lemma_css_find_props(imports: Seq<ImportV>, specifier: Seq<char>, i: int)
    requires
        0 <= i <= imports.len(),
    ensures
        spec_css_find_from(imports, specifier, i) == -1 ==> forall|k: int|
            i <= k < imports.len() ==> (#[trigger] imports[k]).source_request != specifier,
        spec_css_find_from(imports, specifier, i) != -1 ==> {
            let f = spec_css_find_from(imports, specifier, i);
            i <= f < imports.len() && imports[f].source_request == specifier
        },
    decreases imports.len() - i,
{
    if i < imports.len() && imports[i].source_request != specifier {
        lemma_css_find_props(imports, specifier, i + 1);
    }
}

// ---------------------------------------------------------------------------
// The per-kind module payloads.
// ---------------------------------------------------------------------------

#[derive(PartialEq, Eq, Debug)]
pub struct JavaScriptModule {
    pub package_type: crate::js::JavaScriptPackageType,
    pub stats: JavaScriptStats,
    pub source: String,
}

impl JavaScriptModule {
    /// A barrel file only re-exports: no top-level statement besides
    /// imports and at least `threshold` export statements.
    pub fn is_barrel_file(&self, threshold: usize) -> (r: bool)
        ensures
            r == (self.stats.other_statements == 0 && self.stats.export_statements
                >= threshold),
    {
        self.stats.other_statements == 0 && self.stats.export_statements >= threshold
    }
}

#[derive(PartialEq, Eq, Debug)]
pub struct CssModule {
    /// Source class name to hashed name, in order.
    pub exports: Vec<(String, String)>,
    /// Whether the file takes part in CSS module extraction.
    pub module: bool,
    pub source: String,
}

impl CssModule {
    pub fn is_css_module(&self) -> (r: bool)
        ensures
            r == self.module,
    {
        self.module
    }
}

#[derive(PartialEq, Eq, Debug)]
pub struct JsonModule {
    pub source: String,
}

#[derive(PartialEq, Eq, Debug)]
pub struct YamlModule {
    pub source: String,
}

#[derive(PartialEq, Eq, Debug)]
pub struct TextModule {
    pub kind: TextModuleKind,
    pub source: String,
}

#[derive(PartialEq, Eq, Debug)]
pub struct MediaModule {
    pub kind: MediaModuleKind,
    pub source: Vec<u8>,
}

#[derive(PartialEq, Eq, Debug)]
pub struct DummyModule;

/// Whether a path names a CSS module file.
pub fn is_css_module_path(path: &String) -> (r: bool)
    ensures
        r == crate::strutil::spec_ends_with(
            path@,
            seq!['.', 'm', 'o', 'd', 'u', 'l', 'e', '.', 'c', 's', 's'],
        ),
{
    let pc = crate::to_chars(path.as_str());
    let suffix = vec!['.', 'm', 'o', 'd', 'u', 'l', 'e', '.', 'c', 's', 's'];
    proof {
        assert(suffix@ =~= seq!['.', 'm', 'o', 'd', 'u', 'l', 'e', '.', 'c', 's', 's']);
    }
    crate::strutil::ends_with(&pc, &suffix)
}


// ---------------------------------------------------------------------------
// The whole CSS-module extraction, from the rendered references and
// exports to the module's imports, exports and name map.
// ---------------------------------------------------------------------------

/// One exported class, as the render reports it.
#[derive(PartialEq, Eq, Debug)]
pub struct CssExportRecord {
    /// The source class name.
    pub name: String,
    /// The hashed (compiled) name.
    pub hashed: String,
    /// The `composes` references of this class, in source order.
    pub composes: Vec<CssModuleReference>,
}

/// What the CSS extraction yields for one file.
#[derive(PartialEq, Eq, Debug)]
pub struct CssExtraction {
    pub imports: Vec<Import>,
    pub exports: Vec<Export>,
    /// Source class name to hashed name, in the order the exports came.
    pub exports_map: Vec<(String, String)>,
    /// Whether the file took part in CSS-module extraction at all.
    pub is_module: bool,
}

/// Fold one exported class in: a native export for its name, its
/// `composes` references merged into the imports, and its hash mapping.
pub open spec fn spec_css_export_step(
    imports: Seq<ImportV>,
    exports: Seq<ExportV>,
    map: Seq<(String, String)>,
    rec: CssExportRecord,
) -> (Seq<ImportV>, Seq<ExportV>, Seq<(String, String)>) {
    (
        spec_css_refs(imports, rec.composes@),
        exports.push(
            ExportV {
                kind: ExportKind::Native,
                module_id: None,
                source: None,
                span: None,
                symbols: seq![
                    ExportedSymbolV {
                        kind: ExportedKind::Value,
                        symbol_id: None,
                        name: rec.name@,
                    },
                ],
                type_only: false,
            },
        ),
        map.push((rec.name, rec.hashed)),
    )
}

pub open spec fn spec_css_exports_fold(
    imports: Seq<ImportV>,
    exports: Seq<ExportV>,
    map: Seq<(String, String)>,
    recs: Seq<CssExportRecord>,
) -> (Seq<ImportV>, Seq<ExportV>, Seq<(String, String)>)
    decreases recs.len(),
{
    if recs.len() == 0 {
        (imports, exports, map)
    } else {
        let st = spec_css_export_step(imports, exports, map, recs[0]);
        spec_css_exports_fold(st.0, st.1, st.2, recs.drop_first())
    }
}

/// The whole extraction of one CSS module from its rendered references and
/// exports, in the order they came.
pub open spec fn spec_css_extract(
    refs: Seq<CssModuleReference>,
    recs: Seq<CssExportRecord>,
) -> (Seq<ImportV>, Seq<ExportV>, Seq<(String, String)>) {
    spec_css_exports_fold(spec_css_refs(Seq::empty(), refs), Seq::empty(), Seq::empty(), recs)
}

/// Turn the rendered references and exports of one CSS module into its
/// imports, exports and hash map.
#[verifier::loop_isolation(false)]
pub fn css_extract(refs: &Vec<CssModuleReference>, recs: &Vec<CssExportRecord>) -> (r:
    CssExtraction)
    ensures
        r.is_module,
        (view_imports(r.imports@), view_exports(r.exports@), r.exports_map@) == spec_css_extract(
            refs@,
            recs@,
        ),
{
    let mut imports: Vec<Import> = Vec::new();
    let mut exports: Vec<Export> = Vec::new();
    let mut map: Vec<(String, String)> = Vec::new();
    proof {
        assert(view_imports(imports@) =~= Seq::<ImportV>::empty());
        assert(view_exports(exports@) =~= Seq::<ExportV>::empty());
    }
    css_merge_references(&mut imports, refs);
    let mut i: usize = 0;
    proof {
        assert(recs@.skip(0) =~= recs@);
    }
    while i < recs.len()
        invariant
            0 <= i <= recs@.len(),
            spec_css_exports_fold(
                view_imports(imports@),
                view_exports(exports@),
                map@,
                recs@.skip(i as int),
            ) == spec_css_extract(refs@, recs@),
        decreases recs@.len() - i,
    {
        proof {
            assert(recs@.skip(i as int)[0] == recs@[i as int]);
            assert(recs@.skip(i as int).drop_first() =~= recs@.skip(i + 1 as int));
        }
        let rec = &recs[i];
        let ghost pre_ex = exports@;
        exports.push(
            Export {
                kind: ExportKind::Native,
                module_id: None,
                source: None,
                span: None,
                symbols: vec![
                    ExportedSymbol {
                        kind: ExportedKind::Value,
                        symbol_id: None,
                        name: rec.name.clone(),
                    },
                ],
                type_only: false,
            },
        );
        proof {
            let stepped = spec_css_export_step(
                view_imports(imports@),
                view_exports(pre_ex),
                map@,
                recs@[i as int],
            );
            assert(exports@.last()@.symbols =~= stepped.1.last().symbols);
            assert(view_exports(exports@) =~= stepped.1);
        }
        css_merge_references(&mut imports, &rec.composes);
        map.push((rec.name.clone(), rec.hashed.clone()));
        i += 1;
    }
    proof {
        assert(recs@.skip(recs@.len() as int) =~= Seq::<CssExportRecord>::empty());
    }
    CssExtraction { imports, exports, exports_map: map, is_module: true }
}

pub open spec fn module_css_suffix() -> Seq<char> {
    seq!['.', 'm', 'o', 'd', 'u', 'l', 'e', '.', 'c', 's', 's']
}

/// Load one CSS file's extraction: only `*.module.css` files take part;
/// for those, lightningcss parses and renders the sheet, and the verified
/// extraction folds whatever the render handed back — the result is exact
/// for the reference and export lists that actually arrived, whose
/// contents the parse boundary names.
pub fn extract_css_module(path: &String, source: &String) -> (r: Result<CssExtraction, String>)
    ensures
        match r {
            Ok(x) => {
                &&& x.is_module == crate::strutil::spec_ends_with(path@, module_css_suffix())
                &&& (!x.is_module ==> x.imports@.len() == 0 && x.exports@.len() == 0
                    && x.exports_map@.len() == 0)
                &&& (x.is_module ==> exists|refs: Seq<CssModuleReference>, recs: Seq<
                    CssExportRecord,
                >|
                    {
                        &&& #[trigger] refs.to_multiset() == crate::css_api::css_refs_of(
                            source@,
                            spec_file_name(path@),
                        )
                        &&& #[trigger] recs.to_multiset() == crate::css_api::css_exports_of(
                            source@,
                            spec_file_name(path@),
                        )
                        &&& (
                        view_imports(x.imports@),
                        view_exports(x.exports@),
                        x.exports_map@,
                        ) == spec_css_extract(refs, recs)
                    })
            },
            Err(_) => crate::strutil::spec_ends_with(path@, module_css_suffix())
                && !crate::css_api::css_renders(source@, spec_file_name(path@)),
        },
        r is Err <==> (crate::strutil::spec_ends_with(path@, module_css_suffix())
            && !crate::css_api::css_renders(source@, spec_file_name(path@))),
{
    if !is_css_module_path(path) {
        return Ok(
            CssExtraction {
                imports: Vec::new(),
                exports: Vec::new(),
                exports_map: Vec::new(),
                is_module: false,
            },
        );
    }
    let name = file_name_of(path);
    match crate::css_api::css_parse_render(source.as_str(), name.as_str()) {
        Ok(p) => {
            let x = css_extract(&p.0, &p.1);
            proof {
                assert(p.0@.to_multiset() == crate::css_api::css_refs_of(
                    source@,
                    spec_file_name(path@),
                ));
            }
            Ok(x)
        }
        Err(m) => Err(m),
    }
}

/// The file name: what follows the last `/`.
pub open spec fn spec_file_name(p: Seq<char>) -> Seq<char> {
    p.subrange(crate::strutil::spec_rfind(p, '/') + 1, p.len() as int)
}

fn file_name_of(path: &String) -> (r: String)
    ensures
        r@ == spec_file_name(path@),
{
    let pc = crate::to_chars(path.as_str());
    let n = pc.len();
    let start: usize = match crate::strutil::rfind_char(&pc, '/') {
        Some(i) => {
            proof {
                assert(i < n);
            }
            i + 1
        }
        None => 0,
    };
    proof {
        crate::strutil::lemma_spec_rfind(path@, '/');
    }
    crate::strutil::string_of(&crate::strutil::subvec(&pc, start, pc.len()))
}

} // verus!
