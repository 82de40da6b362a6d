use vstd::prelude::*;

use vstd::multiset::Multiset;

use crate::sources::{CssExportRecord, CssModuleReference};
use lightningcss::css_modules::{Config, CssModuleReference as LcssReference};
use lightningcss::printer::PrinterOptions;
use lightningcss::stylesheet::{ParserOptions, StyleSheet};

verus! {

// ---------------------------------------------------------------------------
// The CSS parser boundary.  Parsing and rendering are lightningcss's work;
// the crate consumes what the render hands back: the `composes`
// cross-file references and the exported class names with their hashed
// forms.  Both come out of hash maps, so their walk order carries no
// meaning: the contracts name their contents as multisets, and the
// verified extraction takes any order.
// ---------------------------------------------------------------------------

/// Whether lightningcss parses and renders the given module source.
pub uninterp spec fn css_renders(source: Seq<char>, filename: Seq<char>) -> bool;

/// The `composes: ... from "..."` references rendering a CSS module yields.
pub uninterp spec fn css_refs_of(source: Seq<char>, filename: Seq<char>) -> Multiset<
    CssModuleReference,
>;

/// The exported class names rendering a CSS module yields, each with its
/// hashed name and its own `composes` references in source order.
pub uninterp spec fn css_exports_of(source: Seq<char>, filename: Seq<char>) -> Multiset<
    CssExportRecord,
>;

#[verifier::external_type_specification]
#[verifier::external_body]
pub struct ExLcssReference(LcssReference);

/// Carry one rendered reference across the boundary: the dependency arm
/// keeps its name and specifier; local and global references cross no file
/// boundary.
///
/// Relies on the shape of `lightningcss::css_modules::CssModuleReference`:
/// one arm per variant, moving fields only.
#[verifier::external_body]
fn conv_ref(r: LcssReference) -> (out: CssModuleReference)
    ensures
        out is Dependency || out is Local,
{
    match r {
        LcssReference::Dependency { name, specifier } => CssModuleReference::Dependency {
            name,
            specifier,
        },
        _ => CssModuleReference::Local,
    }
}

/// Parse a CSS module and render it once for its references and exports.
///
/// Relies on `lightningcss::stylesheet::StyleSheet::parse` and `to_css`
/// with the CSS-modules configuration: both are functions of the source
/// text and the file name alone; the reference and export maps are walked
/// in a hash map's order, so only their contents are stated.
#[verifier::external_body]
pub fn css_parse_render(source: &str, filename: &str) -> (r: Result<
    (Vec<CssModuleReference>, Vec<CssExportRecord>),
    String,
>)
    ensures
        r is Ok <==> css_renders(source@, filename@),
        r matches Ok(p) ==> p.0@.to_multiset() == css_refs_of(source@, filename@)
            && p.1@.to_multiset() == css_exports_of(source@, filename@),
{
    let opts = ParserOptions { filename: filename.to_string(), css_modules: Some(Config::default()), ..ParserOptions::default() };
    let sheet = StyleSheet::parse(source, opts).map_err(|e| e.to_string())?;
    let out = sheet.to_css(PrinterOptions::default()).map_err(|e| e.to_string())?;
    let refs = out.references.map(|m| m.into_values().map(conv_ref).collect()).unwrap_or_default();
    let exports = out.exports.map(|m| m.into_iter().map(|(k, e)| CssExportRecord {
        name: k, hashed: e.name, composes: e.composes.into_iter().map(conv_ref).collect(),
    }).collect()).unwrap_or_default();
    Ok((refs, exports))
}

} // verus!
