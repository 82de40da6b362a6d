use vstd::prelude::*;

verus! {

/// What lexically cleaning a path yields: repeated separators reduced,
/// `.` segments removed, `..` segments resolved against what precedes them.
pub uninterp spec fn spec_clean(p: Seq<char>) -> Seq<char>;

/// Clean a path lexically.
///
/// Relies on `clean_path::clean`, a function of the path text alone: no
/// filesystem is consulted.
#[verifier::external_body]
pub fn clean_path_text(p: &str) -> (r: String)
    ensures
        r@ == spec_clean(p@),
{
    clean_path::clean(p).to_string_lossy().into_owned()
}

} // verus!
