use vstd::prelude::*;

use crate::strutil::seq_has;

verus! {

// ---------------------------------------------------------------------------
// The crate keeps `semver::Version` and `semver::VersionReq` values opaque and
// speaks of them through named results of semver's own parsing and rendering
// functions.  Every clause below is read off semver's source: `Version` and
// `VersionReq` parse with `FromStr` in `parse.rs` and render with `Display` in
// `display.rs`.
// ---------------------------------------------------------------------------

#[verifier::external_type_specification]
#[verifier::external_body]
pub struct ExSemverVersion(semver::Version);

#[verifier::external_type_specification]
#[verifier::external_body]
pub struct ExSemverVersionReq(semver::VersionReq);

/// What `semver::Version::parse` returns on a given text, `None` standing for
/// its error case.
pub uninterp spec fn spec_version_parse(s: Seq<char>) -> Option<semver::Version>;

/// What the `Display` rendering of a `semver::Version` holds.
pub uninterp spec fn spec_version_str(v: semver::Version) -> Seq<char>;

/// What `semver::VersionReq::parse` returns on a given text, `None` standing
/// for its error case.
pub uninterp spec fn spec_req_parse(s: Seq<char>) -> Option<semver::VersionReq>;

/// What the `Display` rendering of a `semver::VersionReq` holds.
pub uninterp spec fn spec_req_str(r: semver::VersionReq) -> Seq<char>;

/// What `semver::VersionReq::matches` decides for a requirement and a version.
pub uninterp spec fn spec_req_matches(r: semver::VersionReq, v: semver::Version) -> bool;

pub open spec fn is_ascii_digit(c: char) -> bool {
    '0' <= c && c <= '9'
}

pub open spec fn is_op_char(c: char) -> bool {
    c == '^' || c == '~' || c == '>' || c == '<' || c == '='
}

pub open spec fn seq_has_op(s: Seq<char>) -> bool {
    exists|i: int| 0 <= i < s.len() && is_op_char(s[i])
}

/// The character set of a rendered `semver::Version`: `major.minor.patch`
/// digits and dots, then pre-release and build identifiers drawn from
/// ASCII alphanumerics, `-`, `+` and `.` (semver `identifier.rs`).
pub open spec fn version_str_chars(s: Seq<char>) -> bool {
    &&& s.len() > 0
    &&& is_ascii_digit(s[0])
    &&& forall|i: int|
        0 <= i < s.len() ==> (is_ascii_digit(#[trigger] s[i]) || ('a' <= s[i] && s[i] <= 'z') || (
        'A' <= s[i] && s[i] <= 'Z') || s[i] == '.' || s[i] == '-' || s[i] == '+')
}

/// Characters that never occur in a rendered `semver::VersionReq`: comparators
/// are rendered as an operator, digits, dots, `*`, pre-release identifiers,
/// and are joined with `", "` (semver `display.rs`).  The rendering starts
/// with an operator, a digit or `*`, and ends with an alphanumeric, `*` or
/// `=`, so it neither starts nor ends with a blank.
pub open spec fn req_str_chars(s: Seq<char>) -> bool {
    &&& s.len() > 0
    &&& !seq_has(s, ':')
    &&& !seq_has(s, '/')
    &&& !seq_has(s, '|')
    &&& !seq_has(s, '@')
    &&& !seq_has(s, '#')
    &&& !crate::strutil::is_blank(s[0])
    &&& !crate::strutil::is_blank(s[s.len() - 1])
}

pub open spec fn star_seq() -> Seq<char> {
    seq!['*']
}

/// Parse a semver version.
///
/// Relies on `semver::Version::parse`.  The facts recorded of a successful
/// parse are read off semver's source:
/// - parsing is a function of the text alone;
/// - rendering a parsed version reproduces the parsed text exactly, since the
///   parser accepts only the canonical form (no leading zeros, no blanks) and
///   `Display` prints `major.minor.patch[-pre][+build]` verbatim;
/// - the accepted texts start with a digit of `major` and hold only ASCII
///   alphanumerics, `.`, `-` and `+`;
/// - a `-` appears in the text if and only if the version has a pre-release
///   part, so a version parsed from a hyphen-free text renders hyphen-free.
#[verifier::external_body]
pub fn version_parse(s: &str) -> (r: Result<semver::Version, String>)
    ensures
        r is Ok <==> spec_version_parse(s@) is Some,
        r matches Ok(v) ==> spec_version_parse(s@) == Some(v) && spec_version_str(v) == s@
            && version_str_chars(s@),
{
    semver::Version::parse(s).map_err(|e| e.to_string())
}

/// Render a semver version.
///
/// Relies on `semver::Version`'s `Display`, a function of the value alone.
#[verifier::external_body]
pub fn version_to_string(v: &semver::Version) -> (r: String)
    ensures
        r@ == spec_version_str(*v),
{
    v.to_string()
}

/// Compare two semver versions.
///
/// Relies on `semver::Version::eq`, which compares all five components.
#[verifier::external_body]
pub fn version_eq(a: &semver::Version, b: &semver::Version) -> (r: bool)
    ensures
        r == (*a == *b),
{
    a == b
}

/// Parse a semver requirement.
///
/// Relies on `semver::VersionReq::parse`.  The facts recorded of a successful
/// parse are read off semver's source:
/// - parsing is a function of the text alone;
/// - re-parsing the `Display` rendering of a parsed requirement yields an
///   equal requirement: comparators are rendered one by one with their
///   operator, numeric parts (accepted without leading zeros), wildcard
///   position and pre-release, joined by `", "`, and that form parses back to
///   the same comparator list; an empty comparator list renders as `*`, which
///   parses back to the empty list;
/// - the rendering never holds `:`, `/`, `|`, `@` or `#`, which the
///   requirement grammar rejects everywhere;
/// - the rendering holds a `-` only in a comparator pre-release, which the
///   parser takes only from a `-` in its input;
/// - an operator character in the input makes some comparator carry a
///   non-wildcard operator, which the rendering prints;
/// - the text `*` parses to the empty comparator list, which renders as `*`.
#[verifier::external_body]
pub fn req_parse(s: &str) -> (r: Result<semver::VersionReq, String>)
    ensures
        r is Ok <==> spec_req_parse(s@) is Some,
        r matches Ok(q) ==> {
            &&& spec_req_parse(s@) == Some(q)
            &&& spec_req_parse(spec_req_str(q)) == Some(q)
            &&& req_str_chars(spec_req_str(q))
            &&& (!seq_has(s@, '-') ==> !seq_has(spec_req_str(q), '-'))
            &&& (seq_has_op(s@) ==> seq_has_op(spec_req_str(q)))
            &&& (s@ == star_seq() ==> spec_req_str(q) == star_seq())
        },
{
    semver::VersionReq::parse(s).map_err(|e| e.to_string())
}

/// Render a semver requirement.
///
/// Relies on `semver::VersionReq`'s `Display`, a function of the value alone.
#[verifier::external_body]
pub fn req_to_string(r: &semver::VersionReq) -> (out: String)
    ensures
        out@ == spec_req_str(*r),
{
    r.to_string()
}

/// Ask whether a requirement has an empty comparator list (the `*`
/// requirement).
///
/// Relies on the `comparators` field of `semver::VersionReq` and its
/// `Display`: the list is empty exactly when the rendering is `*`, since a
/// rendered comparator always starts with an operator or a digit.
#[verifier::external_body]
pub fn req_is_star(r: &semver::VersionReq) -> (out: bool)
    ensures
        out == (spec_req_str(*r) == star_seq()),
{
    r.comparators.is_empty()
}

/// Ask whether a version satisfies a requirement.
///
/// Relies on `semver::VersionReq::matches`, a function of the two values
/// alone (semver `eval.rs`).
#[verifier::external_body]
pub fn req_matches(r: &semver::VersionReq, v: &semver::Version) -> (out: bool)
    ensures
        out == spec_req_matches(*r, *v),
{
    r.matches(v)
}

} // verus!
