pub mod clean_api;
pub mod css_api;
pub mod import_export;
pub mod js;
pub mod module;
pub mod package_graph;
pub mod package_json;
pub mod petgraph_api;
pub mod module_graph;
pub mod semver_api;
pub mod snapshot;
pub mod sources;
pub mod version;
pub mod workspace;
pub mod strutil;
pub mod tsconfig;

use vstd::prelude::*;

verus! {

use vstd::std_specs::iter::IteratorSpec;

broadcast use vstd::string::axiom_spec_iter, vstd::string::next_postcondition;

/// Append one character to a string buffer.
///
/// Relies on std's `String::push`: the character is added at the end.
pub assume_specification[ std::string::String::push ](s: &mut String, c: char)
    ensures
        final(s)@ == old(s)@.push(c),
;

/// Collect the characters of a string slice into a vector.
pub fn to_chars(s: &str) -> (r: Vec<char>)
    ensures
        r@ == s@,
{
    let mut r: Vec<char> = Vec::new();
    let mut it = s.chars();
    loop
        invariant
            it.obeys_prophetic_iter_laws(),
            it.decrease() is Some,
            r@ + it.remaining() == s@,
        decreases it.decrease()->0,
    {
        match it.next() {
            Some(c) => {
                r.push(c);
            }
            None => {
                proof {
                    assert(r@ =~= s@);
                }
                return r;
            }
        }
    }
}

} // verus!
