use vstd::prelude::*;

use crate::strutil::{string_of, subvec};
use crate::to_chars;

verus! {

// ---------------------------------------------------------------------------
// The keys and values of a manifest's `imports` and `exports` fields.
// ---------------------------------------------------------------------------

#[derive(PartialEq, Eq, Debug)]
pub enum ImportExportField {
    /// An explicit `null` or a missing value.
    Null,
    Text(String),
    Array(Vec<ImportExportField>),
    Table(Vec<(ImportExportKey, ImportExportField)>),
}

#[derive(PartialEq, Eq, Debug)]
pub enum ImportExportKey {
    /// The `.` entry.
    Main,
    /// A `./…` subpath (kept without its leading dots) or a `#…` internal
    /// pattern.
    Pattern(String),
    /// Any other key, a custom condition name.
    CustomCondition(String),
}

/// The mathematical shape of an `ImportExportKey`.
pub enum KeyView {
    Main,
    Pattern(Seq<char>),
    CustomCondition(Seq<char>),
}

impl View for ImportExportKey {
    type V = KeyView;

    open spec fn view(&self) -> KeyView {
        match self {
            ImportExportKey::Main => KeyView::Main,
            ImportExportKey::Pattern(p) => KeyView::Pattern(p@),
            ImportExportKey::CustomCondition(c) => KeyView::CustomCondition(c@),
        }
    }
}

/// `s` without its leading dots.
pub open spec fn spec_trim_dots(s: Seq<char>) -> Seq<char>
    decreases s.len(),
{
    if s.len() > 0 && s[0] == '.' {
        spec_trim_dots(s.drop_first())
    } else {
        s
    }
}

/// What reading a key yields.
pub open spec fn spec_key_parse(s: Seq<char>) -> KeyView {
    if s == seq!['.'] {
        KeyView::Main
    } else if s.len() >= 2 && s[0] == '.' && s[1] == '/' {
        KeyView::Pattern(spec_trim_dots(s))
    } else if s.len() >= 1 && s[0] == '#' {
        KeyView::Pattern(s)
    } else {
        KeyView::CustomCondition(s)
    }
}

/// What rendering a key yields.
pub open spec fn spec_key_str(k: KeyView) -> Seq<char> {
    match k {
        KeyView::Main => seq!['.'],
        KeyView::Pattern(p) => if p.len() >= 1 && p[0] == '#' {
            p
        } else {
            seq!['.'] + p
        },
        KeyView::CustomCondition(c) => c,
    }
}

/// Every value that `ImportExportKey::from` returns satisfies this.
pub open spec fn key_wf(k: KeyView) -> bool {
    match k {
        KeyView::Main => true,
        KeyView::Pattern(p) => p.len() >= 1 && (p[0] == '/' || p[0] == '#'),
        KeyView::CustomCondition(c) => c != seq!['.'] && !(c.len() >= 2 && c[0] == '.' && c[1]
            == '/') && !(c.len() >= 1 && c[0] == '#'),
    }
}

impl ImportExportKey {
    /// Read a key of an `imports`/`exports` map.
    #[verifier::loop_isolation(false)]
    pub fn from(key: &str) -> (r: ImportExportKey)
        ensures
            r@ == spec_key_parse(key@),
            key_wf(r@),
    {
        let chars = to_chars(key);
        if chars.len() == 1 && chars[0] == '.' {
            proof {
                assert(key@ =~= seq!['.']);
            }
            return ImportExportKey::Main;
        }
        proof {
            if key@ == seq!['.'] {
                assert(key@.len() == 1 && key@[0] == '.');
            }
        }
        if chars.len() >= 2 && chars[0] == '.' && chars[1] == '/' {
            let mut i: usize = 0;
            proof {
                assert(key@.subrange(0, key@.len() as int) =~= key@);
            }
            while i < chars.len() && chars[i] == '.'
                invariant
                    0 <= i <= chars@.len(),
                    forall|j: int| 0 <= j < i ==> key@[j] == '.',
                    spec_trim_dots(key@) == spec_trim_dots(
                        key@.subrange(i as int, key@.len() as int),
                    ),
                decreases chars@.len() - i,
            {
                proof {
                    assert(key@.subrange(i as int, key@.len() as int).drop_first()
                        =~= key@.subrange(i + 1 as int, key@.len() as int));
                }
                i += 1;
            }
            let rest = subvec(&chars, i, chars.len());
            proof {
                let t = key@.subrange(i as int, key@.len() as int);
                if t.len() > 0 && t[0] == '.' {
                    assert(key@[i as int] == '.');
                    assert(false);
                }
                assert(spec_trim_dots(key@) == rest@);
                assert(rest@.len() >= 1 && rest@[0] == '/') by {
                    assert(key@[1] == '/');
                    if i >= 2 {
                        assert(key@[1] == '.');
                    }
                    assert(i == 1);
                }
            }
            return ImportExportKey::Pattern(string_of(&rest));
        }
        if chars.len() >= 1 && chars[0] == '#' {
            return ImportExportKey::Pattern(key.to_owned());
        }
        ImportExportKey::CustomCondition(key.to_owned())
    }

    /// Render the canonical text of the key.
    pub fn format(&self) -> (r: String)
        ensures
            r@ == spec_key_str(self@),
    {
        match self {
            ImportExportKey::Main => {
                let dot = vec!['.'];
                proof {
                    assert(dot@ =~= seq!['.']);
                }
                string_of(&dot)
            }
            ImportExportKey::Pattern(p) => {
                let pc = to_chars(p.as_str());
                if pc.len() >= 1 && pc[0] == '#' {
                    string_of(&pc)
                } else {
                    let mut out = vec!['.'];
                    crate::strutil::append_vec(&mut out, &pc);
                    proof {
                        assert(out@ =~= seq!['.'] + p@);
                    }
                    string_of(&out)
                }
            }
            ImportExportKey::CustomCondition(c) => {
                let cc = to_chars(c.as_str());
                string_of(&cc)
            }
        }
    }
}

/// Law: a key read from a text re-parses from its own rendering.
pub proof fn lemma_key_round_trip(k: KeyView)
    requires
        key_wf(k),
    ensures
        spec_key_parse(spec_key_str(k)) == k,
{
    let d = spec_key_str(k);
    match k {
        KeyView::Main => {
        }
        KeyView::Pattern(p) => {
            if p[0] == '#' {
                assert(d == p);
                assert(d != seq!['.']) by {
                    if d == seq!['.'] {
                        assert(p[0] == '.');
                    }
                }
            } else {
                assert(d =~= seq!['.'] + p);
                assert(d[0] == '.' && d[1] == '/');
                assert(d.len() >= 2);
                assert(d != seq!['.']);
                assert(d.drop_first() =~= p);
                assert(spec_trim_dots(d) == spec_trim_dots(p));
                assert(spec_trim_dots(p) == p);
            }
        }
        KeyView::CustomCondition(c) => {
        }
    }
}

} // verus!
