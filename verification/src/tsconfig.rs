use vstd::prelude::*;

use crate::clean_api::{clean_path_text, spec_clean};
use crate::strutil::{
    append_vec, ends_with, has_char, lemma_spec_rfind, lower, rfind_char, seq_has, spec_ends_with,
    spec_lower, spec_rfind, string_of, subvec, vec_eq,
};
use crate::to_chars;

verus! {

// ---------------------------------------------------------------------------
// `tsconfig.json`: the compiler options subset, the `extends` chain, and the
// `${configDir}` token.
// ---------------------------------------------------------------------------

/// A path, or a glob when the text holds `*` or `?`.
#[derive(PartialEq, Eq, Debug)]
pub enum PathOrGlob {
    Path(String),
    Glob(String),
}

/// The mathematical shape of a `PathOrGlob`.
pub enum PogView {
    Path(Seq<char>),
    Glob(Seq<char>),
}

impl View for PathOrGlob {
    type V = PogView;

    open spec fn view(&self) -> PogView {
        match self {
            PathOrGlob::Path(p) => PogView::Path(p@),
            PathOrGlob::Glob(g) => PogView::Glob(g@),
        }
    }
}

pub open spec fn spec_pog_parse(s: Seq<char>) -> PogView {
    if seq_has(s, '*') || seq_has(s, '?') {
        PogView::Glob(s)
    } else {
        PogView::Path(s)
    }
}

/// Rendering turns every backslash into a slash.
pub open spec fn spec_slashes(s: Seq<char>) -> Seq<char> {
    Seq::new(s.len(), |i: int| if s[i] == '\\' { '/' } else { s[i] })
}

pub open spec fn spec_pog_str(v: PogView) -> Seq<char> {
    match v {
        PogView::Path(p) => spec_slashes(p),
        PogView::Glob(g) => spec_slashes(g),
    }
}

impl PathOrGlob {
    /// Read an `include`/`exclude` entry.
    pub fn from(value: &str) -> (r: PathOrGlob)
        ensures
            r@ == spec_pog_parse(value@),
    {
        let vc = to_chars(value);
        if has_char(&vc, '*') || has_char(&vc, '?') {
            PathOrGlob::Glob(value.to_owned())
        } else {
            PathOrGlob::Path(value.to_owned())
        }
    }

    /// Render the entry with forward slashes.
    pub fn format(&self) -> (r: String)
        ensures
            r@ == spec_pog_str(self@),
    {
        let raw = match self {
            PathOrGlob::Path(p) => to_chars(p.as_str()),
            PathOrGlob::Glob(g) => to_chars(g.as_str()),
        };
        let mut out: Vec<char> = Vec::new();
        let mut i: usize = 0;
        while i < raw.len()
            invariant
                0 <= i <= raw@.len(),
                out@.len() == i,
                forall|j: int|
                    0 <= j < i ==> out@[j] == (if raw@[j] == '\\' {
                        '/'
                    } else {
                        raw@[j]
                    }),
            decreases raw@.len() - i,
        {
            let c = raw[i];
            if c == '\\' {
                out.push('/');
            } else {
                out.push(c);
            }
            i += 1;
        }
        proof {
            assert(out@ =~= spec_pog_str(self@));
        }
        string_of(&out)
    }

    /// Substitute `${configDir}` (or anchor under the config's directory)
    /// in place.
    pub fn expand(&mut self, source_dir: &String, target_dir: &String)
        ensures
            final(self)@ == (match old(self)@ {
                PogView::Path(p) => PogView::Path(
                    spec_replace_path_config_dir(p, source_dir@, target_dir@),
                ),
                PogView::Glob(g) => PogView::Glob(
                    spec_replace_string_config_dir(g, source_dir@, target_dir@),
                ),
            }),
    {
        match self {
            PathOrGlob::Path(p) => {
                let np = replace_path_config_dir(p, source_dir, target_dir);
                *self = PathOrGlob::Path(np);
            }
            PathOrGlob::Glob(g) => {
                let ng = replace_string_config_dir(g, source_dir, target_dir);
                *self = PathOrGlob::Glob(ng);
            }
        }
    }
}

/// Law: an entry read from a backslash-free text re-reads from its own
/// rendering.  A backslash would be turned into a slash on the way out, so
/// texts holding one are left out.
pub proof fn lemma_pog_round_trip(s: Seq<char>)
    requires
        !seq_has(s, '\\'),
    ensures
        spec_pog_parse(spec_pog_str(spec_pog_parse(s))) == spec_pog_parse(s),
{
    assert(spec_slashes(s) =~= s);
}

// ---------------------------------------------------------------------------
// The `${configDir}` token.
// ---------------------------------------------------------------------------

pub open spec fn config_dir_token() -> Seq<char> {
    seq!['$', '{', 'c', 'o', 'n', 'f', 'i', 'g', 'D', 'i', 'r', '}']
}

/// `s` with every occurrence of the token replaced, leftmost first.
pub open spec fn spec_replace_token(s: Seq<char>, repl: Seq<char>) -> Seq<char>
    decreases s.len(),
{
    if s.len() >= 12 && s.subrange(0, 12) == config_dir_token() {
        repl + spec_replace_token(s.skip(12), repl)
    } else if s.len() == 0 {
        s
    } else {
        seq![s[0]] + spec_replace_token(s.drop_first(), repl)
    }
}

pub open spec fn spec_has_token(s: Seq<char>) -> bool
    decreases s.len(),
{
    if s.len() >= 12 && s.subrange(0, 12) == config_dir_token() {
        true
    } else if s.len() == 0 {
        false
    } else {
        spec_has_token(s.drop_first())
    }
}

fn starts_token_at(v: &Vec<char>, i: usize) -> (r: bool)
    requires
        i <= v@.len(),
    ensures
        r == (v@.len() - i >= 12 && v@.subrange(i as int, i + 12 as int) == config_dir_token()),
{
    if v.len() - i < 12 {
        return false;
    }
    let t = subvec(v, i, i + 12);
    let tok = vec![
        '$',
        '{',
        'c',
        'o',
        'n',
        'f',
        'i',
        'g',
        'D',
        'i',
        'r',
        '}',
    ];
    proof {
        assert(tok@ =~= config_dir_token());
    }
    vec_eq(&t, &tok)
}

fn replace_token(v: &Vec<char>, repl: &Vec<char>) -> (r: Vec<char>)
    ensures
        r@ == spec_replace_token(v@, repl@),
{
    let mut out: Vec<char> = Vec::new();
    let mut i: usize = 0;
    proof {
        assert(v@.skip(0) =~= v@);
    }
    while i < v.len()
        invariant
            0 <= i <= v@.len(),
            out@ + spec_replace_token(v@.skip(i as int), repl@) =~= spec_replace_token(
                v@,
                repl@,
            ),
        decreases v@.len() - i,
    {
        let ghost rest = v@.skip(i as int);
        if starts_token_at(v, i) {
            proof {
                assert(rest.subrange(0, 12) =~= v@.subrange(i as int, i + 12 as int));
                assert(rest.skip(12) =~= v@.skip(i + 12 as int));
            }
            append_vec(&mut out, repl);
            i += 12;
        } else {
            proof {
                assert(rest[0] == v@[i as int]);
                assert(rest.drop_first() =~= v@.skip(i + 1 as int));
                if rest.len() >= 12 && rest.subrange(0, 12) == config_dir_token() {
                    assert(v@.subrange(i as int, i + 12 as int) =~= rest.subrange(0, 12));
                }
            }
            out.push(v[i]);
            i += 1;
        }
    }
    proof {
        assert(v@.skip(v@.len() as int) =~= Seq::<char>::empty());
        assert(out@ =~= spec_replace_token(v@, repl@));
    }
    out
}

fn has_token(v: &Vec<char>) -> (r: bool)
    ensures
        r == spec_has_token(v@),
{
    let mut i: usize = 0;
    proof {
        assert(v@.skip(0) =~= v@);
    }
    while i < v.len()
        invariant
            0 <= i <= v@.len(),
            spec_has_token(v@) == spec_has_token(v@.skip(i as int)),
        decreases v@.len() - i,
    {
        let ghost rest = v@.skip(i as int);
        proof {
            assert(rest.len() > 0 ==> rest[0] == v@[i as int]);
            assert(rest.drop_first() =~= v@.skip(i + 1 as int));
            if rest.len() >= 12 && rest.subrange(0, 12) == config_dir_token() {
                assert(v@.subrange(i as int, i + 12 as int) =~= rest.subrange(0, 12));
            }
        }
        if starts_token_at(v, i) {
            proof {
                assert(v@.skip(i as int).subrange(0, 12) =~= v@.subrange(
                    i as int,
                    i + 12 as int,
                ));
            }
            return true;
        }
        i += 1;
    }
    proof {
        assert(v@.skip(v@.len() as int) =~= Seq::<char>::empty());
    }
    false
}

pub open spec fn spec_is_abs_path(p: Seq<char>) -> bool {
    p.len() > 0 && p[0] == '/'
}

/// A glob-valued option: token occurrences replaced when present, else the
/// text anchored under the config's directory and cleaned.
pub open spec fn spec_replace_string_config_dir(
    orig: Seq<char>,
    source_dir: Seq<char>,
    target_dir: Seq<char>,
) -> Seq<char> {
    if spec_has_token(orig) {
        spec_replace_token(orig, target_dir)
    } else if spec_is_abs_path(orig) {
        spec_clean(orig)
    } else {
        spec_clean(source_dir + seq!['/'] + orig)
    }
}

/// Substitute in a glob-valued option.
pub fn replace_string_config_dir(orig: &String, source_dir: &String, target_dir: &String) -> (r:
    String)
    ensures
        r@ == spec_replace_string_config_dir(orig@, source_dir@, target_dir@),
{
    let oc = to_chars(orig.as_str());
    if has_token(&oc) {
        let tc = to_chars(target_dir.as_str());
        string_of(&replace_token(&oc, &tc))
    } else if oc.len() > 0 && oc[0] == '/' {
        clean_path_text(orig.as_str())
    } else {
        let mut joined = to_chars(source_dir.as_str());
        joined.push('/');
        append_vec(&mut joined, &oc);
        proof {
            assert(joined@ =~= source_dir@ + seq!['/'] + orig@);
        }
        let js = string_of(&joined);
        clean_path_text(js.as_str())
    }
}

/// The `/`-separated segments of a path text, empty segments kept.
pub open spec fn spec_split_slash_rec(s: Seq<char>, acc: Seq<char>) -> Seq<Seq<char>>
    decreases s.len(),
{
    if s.len() == 0 {
        seq![acc]
    } else if s[0] == '/' {
        seq![acc] + spec_split_slash_rec(s.drop_first(), Seq::empty())
    } else {
        spec_split_slash_rec(s.drop_first(), acc.push(s[0]))
    }
}

pub open spec fn spec_split_slash(s: Seq<char>) -> Seq<Seq<char>> {
    spec_split_slash_rec(s, Seq::empty())
}

/// The segments joined back with `/`, each token segment replaced whole.
pub open spec fn spec_join_mapped(parts: Seq<Seq<char>>, target: Seq<char>, i: int) -> Seq<char>
    decreases parts.len() - i,
{
    if i < 0 || i >= parts.len() {
        Seq::empty()
    } else {
        (if parts[i] == config_dir_token() {
            target
        } else {
            parts[i]
        }) + (if i + 1 < parts.len() {
            seq!['/'] + spec_join_mapped(parts, target, i + 1)
        } else {
            Seq::empty()
        })
    }
}

pub open spec fn spec_parts_have_token(parts: Seq<Seq<char>>) -> bool {
    exists|i: int| 0 <= i < parts.len() && parts[i] == config_dir_token()
}

/// A path-valued option: when some whole `/`-separated segment is the
/// token, that segment — and only such segments — becomes the target
/// directory; otherwise the path is anchored under the config's directory
/// and cleaned.
pub open spec fn spec_replace_path_config_dir(
    orig: Seq<char>,
    source_dir: Seq<char>,
    target_dir: Seq<char>,
) -> Seq<char> {
    let parts = spec_split_slash(orig);
    if spec_parts_have_token(parts) {
        spec_join_mapped(parts, target_dir, 0)
    } else if spec_is_abs_path(orig) {
        spec_clean(orig)
    } else {
        spec_clean(source_dir + seq!['/'] + orig)
    }
}

fn split_slash(v: &Vec<char>) -> (r: Vec<Vec<char>>)
    ensures
        crate::version::views_of(r@) == spec_split_slash(v@),
{
    let mut out: Vec<Vec<char>> = Vec::new();
    let mut cur: Vec<char> = Vec::new();
    let mut i: usize = 0;
    proof {
        assert(v@.subrange(0, v@.len() as int) =~= v@);
        assert(crate::version::views_of(out@) =~= Seq::<Seq<char>>::empty());
    }
    while i < v.len()
        invariant
            0 <= i <= v@.len(),
            spec_split_slash(v@) == crate::version::views_of(out@) + spec_split_slash_rec(
                v@.subrange(i as int, v@.len() as int),
                cur@,
            ),
        decreases v@.len() - i,
    {
        let ghost rest = v@.subrange(i as int, v@.len() as int);
        let ghost dv0 = crate::version::views_of(out@);
        proof {
            assert(rest[0] == v@[i as int]);
            assert(rest.drop_first() =~= v@.subrange(i + 1 as int, v@.len() as int));
        }
        if v[i] == '/' {
            let ghost cv = cur@;
            out.push(cur);
            cur = Vec::new();
            proof {
                assert(crate::version::views_of(out@) =~= dv0.push(cv));
                assert(dv0.push(cv) =~= dv0 + seq![cv]);
                assert((dv0 + seq![cv]) + spec_split_slash_rec(
                    v@.subrange(i + 1 as int, v@.len() as int),
                    Seq::empty(),
                ) =~= dv0 + (seq![cv] + spec_split_slash_rec(
                    v@.subrange(i + 1 as int, v@.len() as int),
                    Seq::empty(),
                )));
            }
        } else {
            cur.push(v[i]);
        }
        i += 1;
    }
    proof {
        assert(v@.subrange(v@.len() as int, v@.len() as int) =~= Seq::<char>::empty());
    }
    let ghost dv0 = crate::version::views_of(out@);
    let ghost cv = cur@;
    out.push(cur);
    proof {
        assert(crate::version::views_of(out@) =~= dv0.push(cv));
        assert(dv0.push(cv) =~= dv0 + seq![cv]);
    }
    out
}

/// Substitute in a path-valued option, whole segments only.
#[verifier::loop_isolation(false)]
pub fn replace_path_config_dir(orig: &String, source_dir: &String, target_dir: &String) -> (r:
    String)
    ensures
        r@ == spec_replace_path_config_dir(orig@, source_dir@, target_dir@),
{
    let oc = to_chars(orig.as_str());
    let parts = split_slash(&oc);
    let ghost partsv = spec_split_slash(orig@);
    let tok = vec!['$', '{', 'c', 'o', 'n', 'f', 'i', 'g', 'D', 'i', 'r', '}'];
    proof {
        assert(tok@ =~= config_dir_token());
    }
    let mut found = false;
    let mut i: usize = 0;
    while i < parts.len()
        invariant
            0 <= i <= parts@.len(),
            crate::version::views_of(parts@) == partsv,
            found == exists|k: int| 0 <= k < i && partsv[k] == config_dir_token(),
        decreases parts@.len() - i,
    {
        if vec_eq(&parts[i], &tok) {
            proof {
                assert(partsv[i as int] == config_dir_token());
            }
            found = true;
        }
        i += 1;
    }
    proof {
        assert(found == spec_parts_have_token(partsv));
    }
    if found {
        let tc = to_chars(target_dir.as_str());
        let mut out: Vec<char> = Vec::new();
        let mut j: usize = 0;
        proof {
            assert(out@ + spec_join_mapped(partsv, target_dir@, 0) =~= spec_join_mapped(
                partsv,
                target_dir@,
                0,
            ));
        }
        while j < parts.len()
            invariant
                0 <= j <= parts@.len(),
                crate::version::views_of(parts@) == partsv,
                tc@ == target_dir@,
                out@ + spec_join_mapped(partsv, target_dir@, j as int) =~= spec_join_mapped(
                    partsv,
                    target_dir@,
                    0,
                ),
            decreases parts@.len() - j,
        {
            if vec_eq(&parts[j], &tok) {
                append_vec(&mut out, &tc);
            } else {
                proof {
                    assert(partsv[j as int] != config_dir_token());
                }
                append_vec(&mut out, &parts[j]);
            }
            if j + 1 < parts.len() {
                out.push('/');
            }
            j += 1;
        }
        string_of(&out)
    } else if oc.len() > 0 && oc[0] == '/' {
        clean_path_text(orig.as_str())
    } else {
        let mut joined = to_chars(source_dir.as_str());
        joined.push('/');
        append_vec(&mut joined, &oc);
        proof {
            assert(joined@ =~= source_dir@ + seq!['/'] + orig@);
        }
        let js = string_of(&joined);
        clean_path_text(js.as_str())
    }
}

// ---------------------------------------------------------------------------
// The compiler options subset, with field-by-field overlay.
// ---------------------------------------------------------------------------

#[derive(Clone, Copy, PartialEq, Eq, Structural, Debug)]
pub enum JsxField {
    React,
    ReactJsx,
    ReactJsxdev,
    ReactNative,
    Preserve,
}

#[derive(Clone, Copy, PartialEq, Eq, Structural, Debug)]
pub enum ModuleField {
    Amd,
    CommonJs,
    Es6,
    Es2015,
    Es2020,
    Es2022,
    EsNext,
    Node16,
    NodeNext,
    Nothing,
    Preserve,
    System,
    Umd,
}

#[derive(Clone, Copy, PartialEq, Eq, Structural, Debug)]
pub enum ModuleDetectionField {
    Auto,
    Legacy,
    Force,
}

#[derive(Clone, Copy, PartialEq, Eq, Structural, Debug)]
pub enum ModuleResolutionField {
    Bundler,
    Classic,
    Node,
    Node10,
    Node16,
    NodeNext,
}

#[derive(Clone, Copy, PartialEq, Eq, Structural, Debug)]
pub enum TargetField {
    Es3,
    Es5,
    Es6,
    Es2015,
    Es2016,
    Es2017,
    Es2018,
    Es2019,
    Es2020,
    Es2021,
    Es2022,
    EsNext,
}

#[derive(PartialEq, Eq, Debug)]
#[verifier::ext_equal]
pub struct CompilerOptions {
    pub allow_js: Option<bool>,
    pub composite: Option<bool>,
    pub declaration_map: Option<bool>,
    pub declaration: Option<bool>,
    pub emit_declaration_only: Option<bool>,
    pub emit_decorator_metadata: Option<bool>,
    pub es_module_interop: Option<bool>,
    pub experimental_decorators: Option<bool>,
    pub incremental: Option<bool>,
    pub isolated_declarations: Option<bool>,
    pub isolated_modules: Option<bool>,
    pub no_check: Option<bool>,
    pub no_emit: Option<bool>,
    pub pretty: Option<bool>,
    pub resolve_json_module: Option<bool>,
    pub resolve_package_json_exports: Option<bool>,
    pub resolve_package_json_imports: Option<bool>,
    pub skip_lib_check: Option<bool>,
    pub source_map: Option<bool>,
    pub strict: Option<bool>,
    pub verbatim_module_syntax: Option<bool>,
    pub base_url: Option<String>,
    pub declaration_dir: Option<String>,
    pub out_dir: Option<String>,
    pub out_file: Option<String>,
    pub root_dir: Option<String>,
    pub jsx_factory: Option<String>,
    pub jsx_fragment_factory: Option<String>,
    pub jsx_import_source: Option<String>,
    pub jsx: Option<JsxField>,
    pub module: Option<ModuleField>,
    pub module_detection: Option<ModuleDetectionField>,
    pub module_resolution: Option<ModuleResolutionField>,
    pub target: Option<TargetField>,
    pub custom_conditions: Option<Vec<String>>,
    pub lib: Option<Vec<String>>,
    pub module_suffixes: Option<Vec<String>>,
    pub types: Option<Vec<String>>,
    pub root_dirs: Option<Vec<String>>,
    pub type_roots: Option<Vec<String>>,
    pub paths: Option<Vec<(String, Vec<String>)>>,
    pub plugins: Option<Vec<String>>,
    /// Unrecognized fields, each value as its raw text.
    pub other_fields: Vec<(String, String)>,
}

/// Replace the first entry under the key, or append.
pub open spec fn spec_assoc_set(
    base: Seq<(String, String)>,
    entry: (String, String),
) -> Seq<(String, String)>
    decreases base.len(),
{
    if base.len() == 0 {
        seq![entry]
    } else if base[0].0@ == entry.0@ {
        seq![entry] + base.drop_first()
    } else {
        seq![base[0]] + spec_assoc_set(base.drop_first(), entry)
    }
}

/// Take every entry of `adds` into `base`, replacing same-keyed entries.
pub open spec fn spec_assoc_extend(
    base: Seq<(String, String)>,
    adds: Seq<(String, String)>,
) -> Seq<(String, String)>
    decreases adds.len(),
{
    if adds.len() == 0 {
        base
    } else {
        spec_assoc_extend(spec_assoc_set(base, adds[0]), adds.drop_first())
    }
}

#[verifier::loop_isolation(false)]
fn assoc_set(base: &mut Vec<(String, String)>, entry: (String, String))
    ensures
        final(base)@ == spec_assoc_set(old(base)@, entry),
{
    let ghost pre = base@;
    let kc = to_chars(entry.0.as_str());
    let mut j: usize = 0;
    proof {
        assert(pre.take(0) =~= Seq::<(String, String)>::empty());
        assert(pre.skip(0) =~= pre);
        assert(spec_assoc_set(pre, entry) =~= pre.take(0) + spec_assoc_set(pre.skip(0), entry));
    }
    while j < base.len()
        invariant
            0 <= j <= base@.len(),
            base@ == pre,
            forall|k: int| 0 <= k < j ==> (#[trigger] pre[k]).0@ != kc@,
            spec_assoc_set(pre, entry) =~= pre.take(j as int) + spec_assoc_set(
                pre.skip(j as int),
                entry,
            ),
        decreases base@.len() - j,
    {
        proof {
            assert(pre.skip(j as int)[0] == pre[j as int]);
            assert(pre.skip(j as int).drop_first() =~= pre.skip(j + 1 as int));
        }
        if vec_eq(&to_chars(base[j].0.as_str()), &kc) {
            proof {
                assert(pre[j as int].0@ == kc@);
                assert(kc@ == entry.0@);
            }
            let ghost ent = entry;
            let _old = base.remove(j);
            base.insert(j, entry);
            proof {
                assert(pre.skip(j as int)[0].0@ == ent.0@);
                assert(spec_assoc_set(pre.skip(j as int), ent) =~= seq![ent] + pre.skip(
                    j + 1 as int,
                ));
                assert(base@ =~= pre.take(j as int) + (seq![ent] + pre.skip(j + 1 as int)));
                assert(base@ =~= spec_assoc_set(pre, ent));
            }
            return ;
        }
        proof {
            assert(pre[j as int].0@ != entry.0@);
            assert(spec_assoc_set(pre.skip(j as int), entry) =~= seq![pre[j as int]]
                + spec_assoc_set(pre.skip(j + 1 as int), entry));
            assert(pre.take(j + 1 as int) =~= pre.take(j as int) + seq![pre[j as int]]);
            assert(pre.take(j as int) + (seq![pre[j as int]] + spec_assoc_set(
                pre.skip(j + 1 as int),
                entry,
            )) =~= pre.take(j + 1 as int) + spec_assoc_set(pre.skip(j + 1 as int), entry));
        }
        j += 1;
    }
    proof {
        assert(pre.skip(pre.len() as int) =~= Seq::<(String, String)>::empty());
    }
    let ghost ent = entry;
    base.push(entry);
    proof {
        assert(spec_assoc_set(pre.skip(pre.len() as int), ent) =~= seq![ent]);
        assert(pre.take(pre.len() as int) =~= pre);
        assert(base@ =~= pre + seq![ent]);
        assert(base@ =~= spec_assoc_set(pre, ent));
    }
}

/// Take every entry into the field list, replacing same-keyed entries:
/// the overlay of the unrecognized fields.
#[verifier::loop_isolation(false)]
pub fn extend_fields(base: &mut Vec<(String, String)>, adds: Vec<(String, String)>)
    ensures
        final(base)@ == spec_assoc_extend(old(base)@, adds@),
{
    let mut adds = adds;
    let ghost addsv = adds@;
    let ghost gi: int = 0;
    proof {
        assert(addsv.skip(0) =~= addsv);
    }
    while adds.len() > 0
        invariant
            0 <= gi,
            gi + adds@.len() == addsv.len(),
            adds@ =~= addsv.skip(gi),
            spec_assoc_extend(base@, adds@) == spec_assoc_extend(old(base)@, addsv),
        decreases adds@.len(),
    {
        proof {
            assert(addsv.skip(gi)[0] == addsv[gi]);
            assert(addsv.skip(gi).drop_first() =~= addsv.skip(gi + 1));
        }
        let e = adds.remove(0);
        assoc_set(base, e);
        proof {
            gi = gi + 1;
        }
    }
}

fn pick_jsx(a: Option<JsxField>, b: Option<JsxField>) -> (r: Option<JsxField>)
    ensures
        r == (if b is Some {
            b
        } else {
            a
        }),
{
    match b {
        Some(v) => Some(v),
        None => a,
    }
}

fn pick_detection(a: Option<ModuleDetectionField>, b: Option<ModuleDetectionField>) -> (r: Option<ModuleDetectionField>)
    ensures
        r == (if b is Some {
            b
        } else {
            a
        }),
{
    match b {
        Some(v) => Some(v),
        None => a,
    }
}

fn pick_module_kind(a: Option<ModuleField>, b: Option<ModuleField>) -> (r: Option<ModuleField>)
    ensures
        r == (if b is Some {
            b
        } else {
            a
        }),
{
    match b {
        Some(v) => Some(v),
        None => a,
    }
}

fn pick_resolution(a: Option<ModuleResolutionField>, b: Option<ModuleResolutionField>) -> (r: Option<ModuleResolutionField>)
    ensures
        r == (if b is Some {
            b
        } else {
            a
        }),
{
    match b {
        Some(v) => Some(v),
        None => a,
    }
}

fn pick_text(a: Option<String>, b: Option<String>) -> (r: Option<String>)
    ensures
        r == (if b is Some {
            b
        } else {
            a
        }),
{
    match b {
        Some(v) => Some(v),
        None => a,
    }
}

fn pick_target(a: Option<TargetField>, b: Option<TargetField>) -> (r: Option<TargetField>)
    ensures
        r == (if b is Some {
            b
        } else {
            a
        }),
{
    match b {
        Some(v) => Some(v),
        None => a,
    }
}

fn pick_paths_map(a: Option<Vec<(String, Vec<String>)>>, b: Option<Vec<(String, Vec<String>)>>) -> (r: Option<Vec<(String, Vec<String>)>>)
    ensures
        r == (if b is Some {
            b
        } else {
            a
        }),
{
    match b {
        Some(v) => Some(v),
        None => a,
    }
}

fn pick_texts(a: Option<Vec<String>>, b: Option<Vec<String>>) -> (r: Option<Vec<String>>)
    ensures
        r == (if b is Some {
            b
        } else {
            a
        }),
{
    match b {
        Some(v) => Some(v),
        None => a,
    }
}

fn pick_flag(a: Option<bool>, b: Option<bool>) -> (r: Option<bool>)
    ensures
        r == (if b is Some {
            b
        } else {
            a
        }),
{
    match b {
        Some(v) => Some(v),
        None => a,
    }
}

/// Overlay `b` over `a`, field by field: every option `b` sets replaces
/// `a`'s, whole; the unrecognized fields are taken in, replacing same-keyed
/// ones.
pub fn merged_options(a: CompilerOptions, b: CompilerOptions) -> (r: CompilerOptions)
    ensures
        r.allow_js == (if b.allow_js is Some {
            b.allow_js
        } else {
            a.allow_js
        }),
        r.composite == (if b.composite is Some {
            b.composite
        } else {
            a.composite
        }),
        r.declaration_map == (if b.declaration_map is Some {
            b.declaration_map
        } else {
            a.declaration_map
        }),
        r.declaration == (if b.declaration is Some {
            b.declaration
        } else {
            a.declaration
        }),
        r.emit_declaration_only == (if b.emit_declaration_only is Some {
            b.emit_declaration_only
        } else {
            a.emit_declaration_only
        }),
        r.emit_decorator_metadata == (if b.emit_decorator_metadata is Some {
            b.emit_decorator_metadata
        } else {
            a.emit_decorator_metadata
        }),
        r.es_module_interop == (if b.es_module_interop is Some {
            b.es_module_interop
        } else {
            a.es_module_interop
        }),
        r.experimental_decorators == (if b.experimental_decorators is Some {
            b.experimental_decorators
        } else {
            a.experimental_decorators
        }),
        r.incremental == (if b.incremental is Some {
            b.incremental
        } else {
            a.incremental
        }),
        r.isolated_declarations == (if b.isolated_declarations is Some {
            b.isolated_declarations
        } else {
            a.isolated_declarations
        }),
        r.isolated_modules == (if b.isolated_modules is Some {
            b.isolated_modules
        } else {
            a.isolated_modules
        }),
        r.no_check == (if b.no_check is Some {
            b.no_check
        } else {
            a.no_check
        }),
        r.no_emit == (if b.no_emit is Some {
            b.no_emit
        } else {
            a.no_emit
        }),
        r.pretty == (if b.pretty is Some {
            b.pretty
        } else {
            a.pretty
        }),
        r.resolve_json_module == (if b.resolve_json_module is Some {
            b.resolve_json_module
        } else {
            a.resolve_json_module
        }),
        r.resolve_package_json_exports == (if b.resolve_package_json_exports is Some {
            b.resolve_package_json_exports
        } else {
            a.resolve_package_json_exports
        }),
        r.resolve_package_json_imports == (if b.resolve_package_json_imports is Some {
            b.resolve_package_json_imports
        } else {
            a.resolve_package_json_imports
        }),
        r.skip_lib_check == (if b.skip_lib_check is Some {
            b.skip_lib_check
        } else {
            a.skip_lib_check
        }),
        r.source_map == (if b.source_map is Some {
            b.source_map
        } else {
            a.source_map
        }),
        r.strict == (if b.strict is Some {
            b.strict
        } else {
            a.strict
        }),
        r.verbatim_module_syntax == (if b.verbatim_module_syntax is Some {
            b.verbatim_module_syntax
        } else {
            a.verbatim_module_syntax
        }),
        r.base_url == (if b.base_url is Some {
            b.base_url
        } else {
            a.base_url
        }),
        r.declaration_dir == (if b.declaration_dir is Some {
            b.declaration_dir
        } else {
            a.declaration_dir
        }),
        r.out_dir == (if b.out_dir is Some {
            b.out_dir
        } else {
            a.out_dir
        }),
        r.out_file == (if b.out_file is Some {
            b.out_file
        } else {
            a.out_file
        }),
        r.root_dir == (if b.root_dir is Some {
            b.root_dir
        } else {
            a.root_dir
        }),
        r.jsx_factory == (if b.jsx_factory is Some {
            b.jsx_factory
        } else {
            a.jsx_factory
        }),
        r.jsx_fragment_factory == (if b.jsx_fragment_factory is Some {
            b.jsx_fragment_factory
        } else {
            a.jsx_fragment_factory
        }),
        r.jsx_import_source == (if b.jsx_import_source is Some {
            b.jsx_import_source
        } else {
            a.jsx_import_source
        }),
        r.jsx == (if b.jsx is Some {
            b.jsx
        } else {
            a.jsx
        }),
        r.module == (if b.module is Some {
            b.module
        } else {
            a.module
        }),
        r.module_detection == (if b.module_detection is Some {
            b.module_detection
        } else {
            a.module_detection
        }),
        r.module_resolution == (if b.module_resolution is Some {
            b.module_resolution
        } else {
            a.module_resolution
        }),
        r.target == (if b.target is Some {
            b.target
        } else {
            a.target
        }),
        r.custom_conditions == (if b.custom_conditions is Some {
            b.custom_conditions
        } else {
            a.custom_conditions
        }),
        r.lib == (if b.lib is Some {
            b.lib
        } else {
            a.lib
        }),
        r.module_suffixes == (if b.module_suffixes is Some {
            b.module_suffixes
        } else {
            a.module_suffixes
        }),
        r.types == (if b.types is Some {
            b.types
        } else {
            a.types
        }),
        r.root_dirs == (if b.root_dirs is Some {
            b.root_dirs
        } else {
            a.root_dirs
        }),
        r.type_roots == (if b.type_roots is Some {
            b.type_roots
        } else {
            a.type_roots
        }),
        r.paths == (if b.paths is Some {
            b.paths
        } else {
            a.paths
        }),
        r.plugins == (if b.plugins is Some {
            b.plugins
        } else {
            a.plugins
        }),
        r.other_fields@ == spec_assoc_extend(a.other_fields@, b.other_fields@),
{
    let mut of = a.other_fields;
    extend_fields(&mut of, b.other_fields);
    CompilerOptions {
        allow_js: pick_flag(a.allow_js, b.allow_js),
        composite: pick_flag(a.composite, b.composite),
        declaration_map: pick_flag(a.declaration_map, b.declaration_map),
        declaration: pick_flag(a.declaration, b.declaration),
        emit_declaration_only: pick_flag(a.emit_declaration_only, b.emit_declaration_only),
        emit_decorator_metadata: pick_flag(a.emit_decorator_metadata, b.emit_decorator_metadata),
        es_module_interop: pick_flag(a.es_module_interop, b.es_module_interop),
        experimental_decorators: pick_flag(a.experimental_decorators, b.experimental_decorators),
        incremental: pick_flag(a.incremental, b.incremental),
        isolated_declarations: pick_flag(a.isolated_declarations, b.isolated_declarations),
        isolated_modules: pick_flag(a.isolated_modules, b.isolated_modules),
        no_check: pick_flag(a.no_check, b.no_check),
        no_emit: pick_flag(a.no_emit, b.no_emit),
        pretty: pick_flag(a.pretty, b.pretty),
        resolve_json_module: pick_flag(a.resolve_json_module, b.resolve_json_module),
        resolve_package_json_exports: pick_flag(a.resolve_package_json_exports, b.resolve_package_json_exports),
        resolve_package_json_imports: pick_flag(a.resolve_package_json_imports, b.resolve_package_json_imports),
        skip_lib_check: pick_flag(a.skip_lib_check, b.skip_lib_check),
        source_map: pick_flag(a.source_map, b.source_map),
        strict: pick_flag(a.strict, b.strict),
        verbatim_module_syntax: pick_flag(a.verbatim_module_syntax, b.verbatim_module_syntax),
        base_url: pick_text(a.base_url, b.base_url),
        declaration_dir: pick_text(a.declaration_dir, b.declaration_dir),
        out_dir: pick_text(a.out_dir, b.out_dir),
        out_file: pick_text(a.out_file, b.out_file),
        root_dir: pick_text(a.root_dir, b.root_dir),
        jsx_factory: pick_text(a.jsx_factory, b.jsx_factory),
        jsx_fragment_factory: pick_text(a.jsx_fragment_factory, b.jsx_fragment_factory),
        jsx_import_source: pick_text(a.jsx_import_source, b.jsx_import_source),
        jsx: pick_jsx(a.jsx, b.jsx),
        module: pick_module_kind(a.module, b.module),
        module_detection: pick_detection(a.module_detection, b.module_detection),
        module_resolution: pick_resolution(a.module_resolution, b.module_resolution),
        target: pick_target(a.target, b.target),
        custom_conditions: pick_texts(a.custom_conditions, b.custom_conditions),
        lib: pick_texts(a.lib, b.lib),
        module_suffixes: pick_texts(a.module_suffixes, b.module_suffixes),
        types: pick_texts(a.types, b.types),
        root_dirs: pick_texts(a.root_dirs, b.root_dirs),
        type_roots: pick_texts(a.type_roots, b.type_roots),
        paths: pick_paths_map(a.paths, b.paths),
        plugins: pick_texts(a.plugins, b.plugins),
        other_fields: of,
    }
}

impl CompilerOptions {
    /// A configuration with every option absent.
    pub fn empty() -> (r: CompilerOptions)
        ensures
            r.allow_js is None,
            r.composite is None,
            r.declaration_map is None,
            r.declaration is None,
            r.emit_declaration_only is None,
            r.emit_decorator_metadata is None,
            r.es_module_interop is None,
            r.experimental_decorators is None,
            r.incremental is None,
            r.isolated_declarations is None,
            r.isolated_modules is None,
            r.no_check is None,
            r.no_emit is None,
            r.pretty is None,
            r.resolve_json_module is None,
            r.resolve_package_json_exports is None,
            r.resolve_package_json_imports is None,
            r.skip_lib_check is None,
            r.source_map is None,
            r.strict is None,
            r.verbatim_module_syntax is None,
            r.base_url is None,
            r.declaration_dir is None,
            r.out_dir is None,
            r.out_file is None,
            r.root_dir is None,
            r.jsx_factory is None,
            r.jsx_fragment_factory is None,
            r.jsx_import_source is None,
            r.jsx is None,
            r.module is None,
            r.module_detection is None,
            r.module_resolution is None,
            r.target is None,
            r.custom_conditions is None,
            r.lib is None,
            r.module_suffixes is None,
            r.types is None,
            r.root_dirs is None,
            r.type_roots is None,
            r.paths is None,
            r.plugins is None,
            r.other_fields@.len() == 0,
    {
        CompilerOptions {
            allow_js: None,
            composite: None,
            declaration_map: None,
            declaration: None,
            emit_declaration_only: None,
            emit_decorator_metadata: None,
            es_module_interop: None,
            experimental_decorators: None,
            incremental: None,
            isolated_declarations: None,
            isolated_modules: None,
            no_check: None,
            no_emit: None,
            pretty: None,
            resolve_json_module: None,
            resolve_package_json_exports: None,
            resolve_package_json_imports: None,
            skip_lib_check: None,
            source_map: None,
            strict: None,
            verbatim_module_syntax: None,
            base_url: None,
            declaration_dir: None,
            out_dir: None,
            out_file: None,
            root_dir: None,
            jsx_factory: None,
            jsx_fragment_factory: None,
            jsx_import_source: None,
            jsx: None,
            module: None,
            module_detection: None,
            module_resolution: None,
            target: None,
            custom_conditions: None,
            lib: None,
            module_suffixes: None,
            types: None,
            root_dirs: None,
            type_roots: None,
            paths: None,
            plugins: None,
            other_fields: Vec::new(),
        }
    }

    /// Overlay `other`: every option it sets replaces this one's, whole —
    /// scalars replace, collections replace whole — and its unrecognized
    /// fields are taken in, replacing same-keyed ones.
    pub fn extend(&mut self, other: CompilerOptions)
        ensures
            final(self).allow_js == (if other.allow_js is Some {
                other.allow_js
            } else {
                old(self).allow_js
            }),
            final(self).composite == (if other.composite is Some {
                other.composite
            } else {
                old(self).composite
            }),
            final(self).declaration_map == (if other.declaration_map is Some {
                other.declaration_map
            } else {
                old(self).declaration_map
            }),
            final(self).declaration == (if other.declaration is Some {
                other.declaration
            } else {
                old(self).declaration
            }),
            final(self).emit_declaration_only == (if other.emit_declaration_only is Some {
                other.emit_declaration_only
            } else {
                old(self).emit_declaration_only
            }),
            final(self).emit_decorator_metadata == (if other.emit_decorator_metadata is Some {
                other.emit_decorator_metadata
            } else {
                old(self).emit_decorator_metadata
            }),
            final(self).es_module_interop == (if other.es_module_interop is Some {
                other.es_module_interop
            } else {
                old(self).es_module_interop
            }),
            final(self).experimental_decorators == (if other.experimental_decorators is Some {
                other.experimental_decorators
            } else {
                old(self).experimental_decorators
            }),
            final(self).incremental == (if other.incremental is Some {
                other.incremental
            } else {
                old(self).incremental
            }),
            final(self).isolated_declarations == (if other.isolated_declarations is Some {
                other.isolated_declarations
            } else {
                old(self).isolated_declarations
            }),
            final(self).isolated_modules == (if other.isolated_modules is Some {
                other.isolated_modules
            } else {
                old(self).isolated_modules
            }),
            final(self).no_check == (if other.no_check is Some {
                other.no_check
            } else {
                old(self).no_check
            }),
            final(self).no_emit == (if other.no_emit is Some {
                other.no_emit
            } else {
                old(self).no_emit
            }),
            final(self).pretty == (if other.pretty is Some {
                other.pretty
            } else {
                old(self).pretty
            }),
            final(self).resolve_json_module == (if other.resolve_json_module is Some {
                other.resolve_json_module
            } else {
                old(self).resolve_json_module
            }),
            final(self).resolve_package_json_exports == (if other.resolve_package_json_exports is Some {
                other.resolve_package_json_exports
            } else {
                old(self).resolve_package_json_exports
            }),
            final(self).resolve_package_json_imports == (if other.resolve_package_json_imports is Some {
                other.resolve_package_json_imports
            } else {
                old(self).resolve_package_json_imports
            }),
            final(self).skip_lib_check == (if other.skip_lib_check is Some {
                other.skip_lib_check
            } else {
                old(self).skip_lib_check
            }),
            final(self).source_map == (if other.source_map is Some {
                other.source_map
            } else {
                old(self).source_map
            }),
            final(self).strict == (if other.strict is Some {
                other.strict
            } else {
                old(self).strict
            }),
            final(self).verbatim_module_syntax == (if other.verbatim_module_syntax is Some {
                other.verbatim_module_syntax
            } else {
                old(self).verbatim_module_syntax
            }),
            final(self).base_url == (if other.base_url is Some {
                other.base_url
            } else {
                old(self).base_url
            }),
            final(self).declaration_dir == (if other.declaration_dir is Some {
                other.declaration_dir
            } else {
                old(self).declaration_dir
            }),
            final(self).out_dir == (if other.out_dir is Some {
                other.out_dir
            } else {
                old(self).out_dir
            }),
            final(self).out_file == (if other.out_file is Some {
                other.out_file
            } else {
                old(self).out_file
            }),
            final(self).root_dir == (if other.root_dir is Some {
                other.root_dir
            } else {
                old(self).root_dir
            }),
            final(self).jsx_factory == (if other.jsx_factory is Some {
                other.jsx_factory
            } else {
                old(self).jsx_factory
            }),
            final(self).jsx_fragment_factory == (if other.jsx_fragment_factory is Some {
                other.jsx_fragment_factory
            } else {
                old(self).jsx_fragment_factory
            }),
            final(self).jsx_import_source == (if other.jsx_import_source is Some {
                other.jsx_import_source
            } else {
                old(self).jsx_import_source
            }),
            final(self).jsx == (if other.jsx is Some {
                other.jsx
            } else {
                old(self).jsx
            }),
            final(self).module == (if other.module is Some {
                other.module
            } else {
                old(self).module
            }),
            final(self).module_detection == (if other.module_detection is Some {
                other.module_detection
            } else {
                old(self).module_detection
            }),
            final(self).module_resolution == (if other.module_resolution is Some {
                other.module_resolution
            } else {
                old(self).module_resolution
            }),
            final(self).target == (if other.target is Some {
                other.target
            } else {
                old(self).target
            }),
            final(self).custom_conditions == (if other.custom_conditions is Some {
                other.custom_conditions
            } else {
                old(self).custom_conditions
            }),
            final(self).lib == (if other.lib is Some {
                other.lib
            } else {
                old(self).lib
            }),
            final(self).module_suffixes == (if other.module_suffixes is Some {
                other.module_suffixes
            } else {
                old(self).module_suffixes
            }),
            final(self).types == (if other.types is Some {
                other.types
            } else {
                old(self).types
            }),
            final(self).root_dirs == (if other.root_dirs is Some {
                other.root_dirs
            } else {
                old(self).root_dirs
            }),
            final(self).type_roots == (if other.type_roots is Some {
                other.type_roots
            } else {
                old(self).type_roots
            }),
            final(self).paths == (if other.paths is Some {
                other.paths
            } else {
                old(self).paths
            }),
            final(self).plugins == (if other.plugins is Some {
                other.plugins
            } else {
                old(self).plugins
            }),
            final(self).other_fields@ == spec_assoc_extend(
                old(self).other_fields@,
                other.other_fields@,
            ),
    {
        let mut prev = CompilerOptions::empty();
        core::mem::swap(self, &mut prev);
        let mut nf = merged_options(prev, other);
        core::mem::swap(self, &mut nf);
    }

    /// Substitute `${configDir}` in every path-valued option.
    #[verifier::loop_isolation(false)]
    #[verifier::rlimit(100)]
    pub fn expand(&mut self, source_dir: &String, target_dir: &String)
        ensures
            match (old(self).base_url, final(self).base_url) {
                (Some(p), Some(q)) => q@ == spec_replace_path_config_dir(
                    p@,
                    source_dir@,
                    target_dir@,
                ),
                (None, None) => true,
                _ => false,
            },
            match (old(self).declaration_dir, final(self).declaration_dir) {
                (Some(p), Some(q)) => q@ == spec_replace_path_config_dir(
                    p@,
                    source_dir@,
                    target_dir@,
                ),
                (None, None) => true,
                _ => false,
            },
            match (old(self).out_dir, final(self).out_dir) {
                (Some(p), Some(q)) => q@ == spec_replace_path_config_dir(
                    p@,
                    source_dir@,
                    target_dir@,
                ),
                (None, None) => true,
                _ => false,
            },
            match (old(self).out_file, final(self).out_file) {
                (Some(p), Some(q)) => q@ == spec_replace_path_config_dir(
                    p@,
                    source_dir@,
                    target_dir@,
                ),
                (None, None) => true,
                _ => false,
            },
            match (old(self).root_dir, final(self).root_dir) {
                (Some(p), Some(q)) => q@ == spec_replace_path_config_dir(
                    p@,
                    source_dir@,
                    target_dir@,
                ),
                (None, None) => true,
                _ => false,
            },
            match (old(self).root_dirs, final(self).root_dirs) {
                (Some(v), Some(w)) => w@.len() == v@.len() && (forall|i: int|
                    0 <= i < v@.len() ==> (#[trigger] w@[i])@ == spec_replace_path_config_dir(
                        v@[i]@,
                        source_dir@,
                        target_dir@,
                    )),
                (None, None) => true,
                _ => false,
            },
            match (old(self).type_roots, final(self).type_roots) {
                (Some(v), Some(w)) => w@.len() == v@.len() && (forall|i: int|
                    0 <= i < v@.len() ==> (#[trigger] w@[i])@ == spec_replace_path_config_dir(
                        v@[i]@,
                        source_dir@,
                        target_dir@,
                    )),
                (None, None) => true,
                _ => false,
            },
            final(self).allow_js == old(self).allow_js,
            final(self).composite == old(self).composite,
            final(self).declaration_map == old(self).declaration_map,
            final(self).declaration == old(self).declaration,
            final(self).emit_declaration_only == old(self).emit_declaration_only,
            final(self).emit_decorator_metadata == old(self).emit_decorator_metadata,
            final(self).es_module_interop == old(self).es_module_interop,
            final(self).experimental_decorators == old(self).experimental_decorators,
            final(self).incremental == old(self).incremental,
            final(self).isolated_declarations == old(self).isolated_declarations,
            final(self).isolated_modules == old(self).isolated_modules,
            final(self).no_check == old(self).no_check,
            final(self).no_emit == old(self).no_emit,
            final(self).pretty == old(self).pretty,
            final(self).resolve_json_module == old(self).resolve_json_module,
            final(self).resolve_package_json_exports == old(self).resolve_package_json_exports,
            final(self).resolve_package_json_imports == old(self).resolve_package_json_imports,
            final(self).skip_lib_check == old(self).skip_lib_check,
            final(self).source_map == old(self).source_map,
            final(self).strict == old(self).strict,
            final(self).verbatim_module_syntax == old(self).verbatim_module_syntax,
            final(self).jsx_factory == old(self).jsx_factory,
            final(self).jsx_fragment_factory == old(self).jsx_fragment_factory,
            final(self).jsx_import_source == old(self).jsx_import_source,
            final(self).jsx == old(self).jsx,
            final(self).module == old(self).module,
            final(self).module_detection == old(self).module_detection,
            final(self).module_resolution == old(self).module_resolution,
            final(self).target == old(self).target,
            final(self).custom_conditions == old(self).custom_conditions,
            final(self).lib == old(self).lib,
            final(self).module_suffixes == old(self).module_suffixes,
            final(self).types == old(self).types,
            final(self).paths == old(self).paths,
            final(self).plugins == old(self).plugins,
            final(self).other_fields@ == old(self).other_fields@,
    {
        match &self.base_url {
            Some(p) => {
                let np = replace_path_config_dir(p, source_dir, target_dir);
                self.base_url = Some(np);
            }
            None => {}
        }
        match &self.declaration_dir {
            Some(p) => {
                let np = replace_path_config_dir(p, source_dir, target_dir);
                self.declaration_dir = Some(np);
            }
            None => {}
        }
        match &self.out_dir {
            Some(p) => {
                let np = replace_path_config_dir(p, source_dir, target_dir);
                self.out_dir = Some(np);
            }
            None => {}
        }
        match &self.out_file {
            Some(p) => {
                let np = replace_path_config_dir(p, source_dir, target_dir);
                self.out_file = Some(np);
            }
            None => {}
        }
        match &self.root_dir {
            Some(p) => {
                let np = replace_path_config_dir(p, source_dir, target_dir);
                self.root_dir = Some(np);
            }
            None => {}
        }
        match &self.root_dirs {
            Some(v) => {
                let mut w: Vec<String> = Vec::new();
                let mut i: usize = 0;
                while i < v.len()
                    invariant
                        0 <= i <= v@.len(),
                        w@.len() == i,
                        forall|k: int|
                            0 <= k < i ==> (#[trigger] w@[k])@ == spec_replace_path_config_dir(
                                v@[k]@,
                                source_dir@,
                                target_dir@,
                            ),
                    decreases v@.len() - i,
                {
                    w.push(replace_path_config_dir(&v[i], source_dir, target_dir));
                    i += 1;
                }
                self.root_dirs = Some(w);
            }
            None => {}
        }
        match &self.type_roots {
            Some(v) => {
                let mut w: Vec<String> = Vec::new();
                let mut i: usize = 0;
                while i < v.len()
                    invariant
                        0 <= i <= v@.len(),
                        w@.len() == i,
                        forall|k: int|
                            0 <= k < i ==> (#[trigger] w@[k])@ == spec_replace_path_config_dir(
                                v@[k]@,
                                source_dir@,
                                target_dir@,
                            ),
                    decreases v@.len() - i,
                {
                    w.push(replace_path_config_dir(&v[i], source_dir, target_dir));
                    i += 1;
                }
                self.type_roots = Some(w);
            }
            None => {}
        }
    }
}


// ---------------------------------------------------------------------------
// `tsconfig.json` and its `extends` chain.
//
// Reading and probing files is the caller's work; the chain logic here is a
// pure function of a snapshot: the configs already decoded, keyed by path,
// and the set of paths that exist for the node-modules probe.
// ---------------------------------------------------------------------------

#[derive(PartialEq, Eq, Debug)]
pub enum ExtendsField {
    Single(String),
    Multiple(Vec<String>),
}

#[derive(PartialEq, Eq, Debug)]
pub struct ProjectReference {
    pub path: String,
    pub prepend: Option<bool>,
}

#[derive(PartialEq, Eq, Debug)]
pub struct TsConfigJson {
    pub compiler_options: Option<CompilerOptions>,
    pub exclude: Option<Vec<PathOrGlob>>,
    pub extends: Option<ExtendsField>,
    pub files: Option<Vec<String>>,
    pub included: Option<Vec<PathOrGlob>>,
    pub references: Option<Vec<ProjectReference>>,
    /// Unrecognized fields, each value as its raw text.
    pub other_fields: Vec<(String, String)>,
}

/// One link of a resolved chain, for consumers that materialize it.
#[derive(PartialEq, Eq, Debug)]
pub struct TsConfigExtendsChain {
    pub path: String,
    pub config: TsConfigJson,
}

/// The decoded configs by path, and the paths that exist on disk.
#[derive(PartialEq, Eq, Debug)]
pub struct ConfigStore {
    pub entries: Vec<(String, TsConfigJson)>,
    pub existing: Vec<String>,
}

#[derive(PartialEq, Eq, Debug)]
pub enum TsConfigChainError {
    /// A config the chain needs is not in the snapshot.
    NotFound(String),
    /// The `extends` graph loops.
    Cycle,
}

/// The error cases, without their payloads.
pub enum ChainErrKind {
    NotFound,
    Cycle,
}

impl View for TsConfigChainError {
    type V = ChainErrKind;

    open spec fn view(&self) -> ChainErrKind {
        match self {
            TsConfigChainError::NotFound(_) => ChainErrKind::NotFound,
            TsConfigChainError::Cycle => ChainErrKind::Cycle,
        }
    }
}

/// The `extends` entries in walk order: a single entry as itself, a list in
/// reverse declaration order, so that later entries override earlier ones
/// once the whole chain is reversed.
pub open spec fn spec_extends_list(e: Option<ExtendsField>) -> Seq<String> {
    match e {
        None => Seq::empty(),
        Some(ExtendsField::Single(t)) => seq![t],
        Some(ExtendsField::Multiple(ts)) => ts@.reverse(),
    }
}

/// The directory above `d`: the text before its last `/`.
pub open spec fn spec_parent_dir(d: Seq<char>) -> Option<Seq<char>> {
    let r = spec_rfind(d, '/');
    if r == -1 {
        None
    } else {
        Some(d.subrange(0, r))
    }
}

pub fn parent_dir(d: &String) -> (r: Option<String>)
    ensures
        match r {
            Some(p) => spec_parent_dir(d@) == Some(p@),
            None => spec_parent_dir(d@) is None,
        },
{
    let dc = to_chars(d.as_str());
    let n = dc.len();
    match rfind_char(&dc, '/') {
        Some(i) => {
            proof {
                assert(i < n);
            }
            Some(string_of(&subvec(&dc, 0, i)))
        }
        None => None,
    }
}

pub open spec fn lit_json_suffix() -> Seq<char> {
    seq!['.', 'j', 's', 'o', 'n']
}

pub open spec fn lit_tsconfig_tail() -> Seq<char> {
    seq!['/', 't', 's', 'c', 'o', 'n', 'f', 'i', 'g', '.', 'j', 's', 'o', 'n']
}

pub open spec fn lit_node_modules_tail() -> Seq<char> {
    seq!['/', 'n', 'o', 'd', 'e', '_', 'm', 'o', 'd', 'u', 'l', 'e', 's', '/']
}

/// `tsconfig.json` appended unless the text already names a JSON file.
pub open spec fn spec_with_config_name(p: Seq<char>) -> Seq<char> {
    if spec_ends_with(p, lit_json_suffix()) {
        p
    } else {
        p + lit_tsconfig_tail()
    }
}

fn with_config_name(p: Vec<char>) -> (r: Vec<char>)
    ensures
        r@ == spec_with_config_name(p@),
{
    let suffix = vec!['.', 'j', 's', 'o', 'n'];
    proof {
        assert(suffix@ =~= lit_json_suffix());
    }
    if ends_with(&p, &suffix) {
        p
    } else {
        let mut out = p;
        let tail = vec![
            '/',
            't',
            's',
            'c',
            'o',
            'n',
            'f',
            'i',
            'g',
            '.',
            'j',
            's',
            'o',
            'n',
        ];
        proof {
            assert(tail@ =~= lit_tsconfig_tail());
        }
        append_vec(&mut out, &tail);
        out
    }
}

pub open spec fn strings_contain(ss: Seq<String>, x: Seq<char>) -> bool {
    exists|i: int| 0 <= i < ss.len() && (#[trigger] ss[i])@ == x
}

fn contains_path(ss: &Vec<String>, x: &Vec<char>) -> (r: bool)
    ensures
        r == strings_contain(ss@, x@),
{
    let mut i: usize = 0;
    while i < ss.len()
        invariant
            0 <= i <= ss@.len(),
            forall|k: int| 0 <= k < i ==> (#[trigger] ss@[k])@ != x@,
        decreases ss@.len() - i,
    {
        if vec_eq(&to_chars(ss[i].as_str()), x) {
            return true;
        }
        i += 1;
    }
    false
}

/// The node-modules candidate one directory offers for a package-style
/// `extends` target.
pub open spec fn spec_nm_candidate(dir: Seq<char>, t: Seq<char>) -> Seq<char> {
    spec_with_config_name(dir + lit_node_modules_tail() + t)
}

/// Walk `dir` and its parents and return the first existing candidate.
pub open spec fn spec_nm_probe(existing: Seq<String>, dir: Seq<char>, t: Seq<char>) -> Option<
    Seq<char>,
>
    decreases dir.len()
        via spec_nm_probe_decreases
{
    if strings_contain(existing, spec_nm_candidate(dir, t)) {
        Some(spec_nm_candidate(dir, t))
    } else {
        match spec_parent_dir(dir) {
            Some(p) => spec_nm_probe(existing, p, t),
            None => None,
        }
    }
}

#[via_fn]
proof fn spec_nm_probe_decreases(existing: Seq<String>, dir: Seq<char>, t: Seq<char>) {
    if !strings_contain(existing, spec_nm_candidate(dir, t)) {
        if spec_parent_dir(dir) is Some {
            lemma_parent_shorter(dir);
        }
    }
}

proof fn lemma_parent_shorter(d: Seq<char>)
    requires
        spec_parent_dir(d) is Some,
    ensures
        spec_parent_dir(d).unwrap().len() < d.len(),
{
    lemma_spec_rfind(d, '/');
}

/// Resolve a package-style `extends` target by probing `node_modules`
/// under the starting directory and its parents.
pub fn resolve_path_in_node_modules(
    existing: &Vec<String>,
    package_file: &String,
    starting_dir: &String,
) -> (r: Option<String>)
    ensures
        match r {
            Some(p) => spec_nm_probe(existing@, starting_dir@, package_file@) == Some(p@),
            None => spec_nm_probe(existing@, starting_dir@, package_file@) is None,
        },
{
    let mut dir = to_chars(starting_dir.as_str());
    loop
        invariant
            spec_nm_probe(existing@, starting_dir@, package_file@) == spec_nm_probe(
                existing@,
                dir@,
                package_file@,
            ),
        decreases dir@.len(),
    {
        let nm = vec![
            '/',
            'n',
            'o',
            'd',
            'e',
            '_',
            'm',
            'o',
            'd',
            'u',
            'l',
            'e',
            's',
            '/',
        ];
        proof {
            assert(nm@ =~= lit_node_modules_tail());
        }
        let mut cand = subvec(&dir, 0, dir.len());
        append_vec(&mut cand, &nm);
        append_vec(&mut cand, &to_chars(package_file.as_str()));
        proof {
            assert(dir@.subrange(0, dir@.len() as int) =~= dir@);
        }
        let cand = with_config_name(cand);
        if contains_path(existing, &cand) {
            return Some(string_of(&cand));
        }
        let dir_s = string_of(&dir);
        match parent_dir(&dir_s) {
            Some(p) => {
                proof {
                    lemma_parent_shorter(dir@);
                }
                dir = to_chars(p.as_str());
            }
            None => {
                return None;
            }
        }
    }
}


// ---------------------------------------------------------------------------
// The chain walk itself.
// ---------------------------------------------------------------------------

/// First config entry under the path, `-1` if there is none.
pub open spec fn spec_cfg_lookup(entries: Seq<(String, TsConfigJson)>, path: Seq<char>) -> int {
    spec_cfg_lookup_from(entries, path, 0)
}

pub open spec fn spec_cfg_lookup_from(
    entries: Seq<(String, TsConfigJson)>,
    path: Seq<char>,
    i: int,
) -> int
    decreases entries.len() - i,
{
    if i < 0 || i >= entries.len() {
        -1
    } else if entries[i].0@ == path {
        i
    } else {
        spec_cfg_lookup_from(entries, path, i + 1)
    }
}

proof fn lemma_cfg_lookup_at(
    entries: Seq<(String, TsConfigJson)>,
    path: Seq<char>,
    from: int,
    f: int,
)
    requires
        0 <= from <= f < entries.len(),
        entries[f].0@ == path,
        forall|k: int| from <= k < f ==> (#[trigger] entries[k]).0@ != path,
    ensures
        spec_cfg_lookup_from(entries, path, from) == f,
    decreases f - from,
{
    if from < f {
        lemma_cfg_lookup_at(entries, path, from + 1, f);
    }
}

fn cfg_lookup(entries: &Vec<(String, TsConfigJson)>, path: &Vec<char>) -> (r: Option<usize>)
    ensures
        match r {
            Some(f) => f < entries@.len() && spec_cfg_lookup(entries@, path@) == f,
            None => spec_cfg_lookup(entries@, path@) == -1,
        },
{
    let mut j: usize = 0;
    while j < entries.len()
        invariant
            0 <= j <= entries@.len(),
            forall|k: int| 0 <= k < j ==> (#[trigger] entries@[k]).0@ != path@,
        decreases entries@.len() - j,
    {
        if vec_eq(&to_chars(entries[j].0.as_str()), path) {
            proof {
                lemma_cfg_lookup_at(entries@, path@, 0, j as int);
            }
            return Some(j);
        }
        j += 1;
    }
    proof {
        lemma_cfg_lookup_none(entries@, path@, 0);
    }
    None
}

proof fn lemma_cfg_lookup_none(entries: Seq<(String, TsConfigJson)>, path: Seq<char>, i: int)
    requires
        0 <= i <= entries.len(),
        forall|k: int| i <= k < entries.len() ==> (#[trigger] entries[k]).0@ != path,
    ensures
        spec_cfg_lookup_from(entries, path, i) == -1,
    decreases entries.len() - i,
{
    if i < entries.len() {
        lemma_cfg_lookup_none(entries, path, i + 1);
    }
}

/// Where one `extends` entry points, given the extending file's directory:
/// a `.`-led entry is a relative path with `tsconfig.json` appended unless
/// it already names a JSON file; anything else probes `node_modules` up
/// from that directory, and a miss is skipped.
pub open spec fn spec_extends_target(
    existing: Seq<String>,
    parent: Seq<char>,
    t: Seq<char>,
) -> Option<Seq<char>> {
    if t.len() > 0 && t[0] == '.' {
        Some(spec_with_config_name(parent + seq!['/'] + t))
    } else {
        spec_nm_probe(existing, parent, t)
    }
}

/// The resolved targets of a whole `extends` list, misses skipped.
pub open spec fn spec_extends_targets(
    existing: Seq<String>,
    parent: Seq<char>,
    ts: Seq<String>,
) -> Seq<Seq<char>>
    decreases ts.len(),
{
    if ts.len() == 0 {
        Seq::empty()
    } else {
        (match spec_extends_target(existing, parent, ts[0]@) {
            Some(p) => seq![p],
            None => Seq::empty(),
        }) + spec_extends_targets(existing, parent, ts.drop_first())
    }
}

/// Resolve the targets of a config's `extends` field, in walk order.
#[verifier::loop_isolation(false)]
pub fn extends_targets(
    existing: &Vec<String>,
    parent: &String,
    extends: &Option<ExtendsField>,
) -> (r: Vec<String>)
    ensures
        r@.len() == spec_extends_targets(existing@, parent@, spec_extends_list(*extends)).len(),
        forall|i: int|
            0 <= i < r@.len() ==> (#[trigger] r@[i])@ == spec_extends_targets(
                existing@,
                parent@,
                spec_extends_list(*extends),
            )[i],
{
    let mut list: Vec<String> = Vec::new();
    match extends {
        None => {}
        Some(ExtendsField::Single(t)) => {
            list.push(t.clone());
            proof {
                assert(Seq::new(list@.len(), |i: int| list@[i]) =~= seq![list@[0]]);
            }
        }
        Some(ExtendsField::Multiple(ts)) => {
            let mut i: usize = ts.len();
            while i > 0
                invariant
                    0 <= i <= ts@.len(),
                    list@.len() == ts@.len() - i,
                    forall|k: int|
                        0 <= k < list@.len() ==> #[trigger] list@[k] == ts@[ts@.len() - 1 - k],
                decreases i,
            {
                i -= 1;
                list.push(ts[i].clone());
            }
        }
    }
    let ghost walk = spec_extends_list(*extends);
    proof {
        assert(list@ =~= walk) by {
            match *extends {
                Some(ExtendsField::Multiple(ts)) => {
                    assert(list@.len() == ts@.reverse().len());
                }
                _ => {}
            }
        }
    }
    let mut out: Vec<String> = Vec::new();
    let mut i: usize = 0;
    proof {
        assert(walk.skip(0) =~= walk);
        assert(out@ =~= Seq::<String>::empty());
    }
    while i < list.len()
        invariant
            0 <= i <= list@.len(),
            list@ == walk,
            spec_extends_targets(existing@, parent@, walk) =~= Seq::new(
                out@.len(),
                |k: int| out@[k]@,
            ) + spec_extends_targets(existing@, parent@, walk.skip(i as int)),
        decreases list@.len() - i,
    {
        proof {
            assert(walk.skip(i as int)[0] == walk[i as int]);
            assert(walk.skip(i as int).drop_first() =~= walk.skip(i + 1 as int));
        }
        let t = &list[i];
        let tc = to_chars(t.as_str());
        if tc.len() > 0 && tc[0] == '.' {
            let mut joined = to_chars(parent.as_str());
            joined.push('/');
            append_vec(&mut joined, &tc);
            proof {
                assert(joined@ =~= parent@ + seq!['/'] + t@);
            }
            let p = with_config_name(joined);
            out.push(string_of(&p));
            proof {
                assert(Seq::new(out@.len(), |k: int| out@[k]@) =~= Seq::new(
                    (out@.len() - 1) as nat,
                    |k: int| out@[k]@,
                ).push(out@.last()@));
            }
        } else {
            match resolve_path_in_node_modules(existing, t, parent) {
                Some(p) => {
                    out.push(p);
                    proof {
                        assert(Seq::new(out@.len(), |k: int| out@[k]@) =~= Seq::new(
                            (out@.len() - 1) as nat,
                            |k: int| out@[k]@,
                        ).push(out@.last()@));
                    }
                }
                None => {}
            }
        }
        i += 1;
    }
    proof {
        assert(walk.skip(walk.len() as int) =~= Seq::<String>::empty());
        assert(Seq::new(out@.len(), |k: int| out@[k]@) =~= spec_extends_targets(
            existing@,
            parent@,
            walk,
        ));
    }
    out
}


/// One file's chain contribution, depth first: the file itself, then the
/// full chains of its `extends` targets in walk order.  The whole result
/// is reversed at the top, which puts the base-most file first.  The fuel
/// bounds the depth; it runs out only on a looping `extends` graph.
pub open spec fn spec_chain_deep(
    entries: Seq<(String, TsConfigJson)>,
    existing: Seq<String>,
    path: Seq<char>,
    fuel: nat,
) -> Result<Seq<int>, ChainErrKind>
    decreases fuel, 0int,
{
    if fuel == 0 {
        Err(ChainErrKind::Cycle)
    } else {
        let idx = spec_cfg_lookup(entries, path);
        if idx == -1 {
            Err(ChainErrKind::NotFound)
        } else {
            let parent = match spec_parent_dir(path) {
                Some(p) => p,
                None => Seq::empty(),
            };
            let targets = spec_extends_targets(
                existing,
                parent,
                spec_extends_list(entries[idx].1.extends),
            );
            match spec_chain_list(entries, existing, targets, (fuel - 1) as nat) {
                Ok(inner) => Ok(seq![idx] + inner),
                Err(e) => Err(e),
            }
        }
    }
}

pub open spec fn spec_chain_list(
    entries: Seq<(String, TsConfigJson)>,
    existing: Seq<String>,
    targets: Seq<Seq<char>>,
    fuel: nat,
) -> Result<Seq<int>, ChainErrKind>
    decreases fuel, targets.len() + 1,
{
    if targets.len() == 0 {
        Ok(Seq::empty())
    } else {
        match spec_chain_deep(entries, existing, targets[0], fuel) {
            Err(e) => Err(e),
            Ok(c1) => match spec_chain_list(entries, existing, targets.drop_first(), fuel) {
                Err(e) => Err(e),
                Ok(rest) => Ok(c1 + rest),
            },
        }
    }
}

/// The resolved chain of a starting config, as indexes into the store's
/// entries, the base-most file at index 0 and the starting file last.
pub open spec fn spec_resolve_chain(
    entries: Seq<(String, TsConfigJson)>,
    existing: Seq<String>,
    start: Seq<char>,
) -> Result<Seq<int>, ChainErrKind> {
    match spec_chain_deep(entries, existing, start, (entries.len() + 1) as nat) {
        Ok(c) => Ok(c.reverse()),
        Err(e) => Err(e),
    }
}

#[verifier::loop_isolation(false)]
fn chain_deep(
    entries: &Vec<(String, TsConfigJson)>,
    existing: &Vec<String>,
    path: &String,
    fuel: usize,
) -> (r: Result<Vec<usize>, TsConfigChainError>)
    ensures
        match (r, spec_chain_deep(entries@, existing@, path@, fuel as nat)) {
            (Ok(v), Ok(c)) => v@.len() == c.len() && (forall|i: int|
                0 <= i < v@.len() ==> (#[trigger] v@[i]) as int == c[i]),
            (Err(e), Err(k)) => e@ == k,
            _ => false,
        },
    decreases fuel,
{
    if fuel == 0 {
        return Err(TsConfigChainError::Cycle);
    }
    let pc = to_chars(path.as_str());
    let idx = match cfg_lookup(entries, &pc) {
        Some(i) => i,
        None => {
            return Err(TsConfigChainError::NotFound(path.clone()));
        }
    };
    let parent: String = match parent_dir(path) {
        Some(p) => p,
        None => String::new(),
    };
    let targets = extends_targets(existing, &parent, &entries[idx].1.extends);
    let ghost f1 = (fuel - 1) as nat;
    let ghost stargets = spec_extends_targets(
        existing@,
        match spec_parent_dir(path@) {
            Some(p) => p,
            None => Seq::empty(),
        },
        spec_extends_list(entries@[idx as int].1.extends),
    );
    let mut out: Vec<usize> = Vec::new();
    out.push(idx);
    let ghost gacc: Seq<int> = Seq::empty();
    let mut ti: usize = 0;
    proof {
        assert(stargets.skip(0) =~= stargets);
        if spec_chain_list(entries@, existing@, stargets, f1) is Ok {
            assert(Seq::<int>::empty() + spec_chain_list(
                entries@,
                existing@,
                stargets,
                f1,
            )->Ok_0 =~= spec_chain_list(entries@, existing@, stargets, f1)->Ok_0);
        }
    }
    while ti < targets.len()
        invariant
            0 <= ti <= targets@.len(),
            out@.len() == 1 + gacc.len(),
            out@[0] == idx,
            forall|k: int| 0 <= k < gacc.len() ==> (#[trigger] out@[k + 1]) as int == gacc[k],
            spec_chain_list(entries@, existing@, stargets, f1) == (match spec_chain_list(
                entries@,
                existing@,
                stargets.skip(ti as int),
                f1,
            ) {
                Ok(rest) => Ok::<Seq<int>, ChainErrKind>(gacc + rest),
                Err(e) => Err::<Seq<int>, ChainErrKind>(e),
            }),
        decreases targets@.len() - ti,
    {
        proof {
            assert(stargets.skip(ti as int)[0] == stargets[ti as int]);
            assert(stargets.skip(ti as int).drop_first() =~= stargets.skip(ti + 1 as int));
            assert(targets@[ti as int]@ == stargets[ti as int]);
        }
        match chain_deep(entries, existing, &targets[ti], fuel - 1) {
            Ok(sub) => {
                let ghost g0 = gacc;
                let ghost c1 = spec_chain_deep(
                    entries@,
                    existing@,
                    stargets[ti as int],
                    f1,
                )->Ok_0;
                let mut j: usize = 0;
                while j < sub.len()
                    invariant
                        0 <= j <= sub@.len(),
                        out@.len() == 1 + g0.len() + j,
                        out@[0] == idx,
                        forall|k: int|
                            0 <= k < g0.len() ==> (#[trigger] out@[k + 1]) as int == g0[k],
                        forall|k: int|
                            0 <= k < j ==> (#[trigger] out@[g0.len() + 1 + k]) == sub@[k],
                    decreases sub@.len() - j,
                {
                    out.push(sub[j]);
                    j += 1;
                }
                proof {
                    gacc = g0 + c1;
                    assert forall|k: int|
                        0 <= k < gacc.len() implies (#[trigger] out@[k + 1]) as int
                        == gacc[k] by {
                        if k >= g0.len() {
                            assert(out@[g0.len() + 1 + (k - g0.len())] == sub@[k - g0.len()]);
                            assert(sub@[k - g0.len()] as int == c1[k - g0.len()]);
                            assert(gacc[k] == c1[k - g0.len()]);
                        }
                    }
                    if spec_chain_list(entries@, existing@, stargets.skip(ti + 1 as int), f1)
                        is Ok {
                        let rest2 = spec_chain_list(
                            entries@,
                            existing@,
                            stargets.skip(ti + 1 as int),
                            f1,
                        )->Ok_0;
                        assert(g0 + (c1 + rest2) =~= (g0 + c1) + rest2);
                    }
                }
                ti += 1;
            }
            Err(e) => {
                return Err(e);
            }
        }
    }
    proof {
        assert(stargets.skip(stargets.len() as int) =~= Seq::<Seq<char>>::empty());
        let deep = spec_chain_deep(entries@, existing@, path@, fuel as nat);
        assert(deep is Ok);
        assert(deep->Ok_0 =~= seq![idx as int] + gacc);
        assert forall|i: int| 0 <= i < out@.len() implies (#[trigger] out@[i]) as int
            == deep->Ok_0[i] by {
            if i == 0 {
            } else {
                assert(out@[(i - 1) + 1] as int == gacc[i - 1]);
            }
        }
    }
    Ok(out)
}

impl ConfigStore {
    /// Resolve the chain of configs contributing to the one at `start`:
    /// indexes into this store's entries, the base-most file at index 0 and
    /// the starting file last.  A config the snapshot lacks is the
    /// `NotFound` error; a looping `extends` graph is `Cycle` (where the
    /// walk would otherwise not terminate).
    pub fn resolve_extends_chain(&self, start: &String) -> (r: Result<
        Vec<usize>,
        TsConfigChainError,
    >)
        requires
            self.entries@.len() < usize::MAX as int,
        ensures
            match (r, spec_resolve_chain(self.entries@, self.existing@, start@)) {
                (Ok(v), Ok(c)) => v@.len() == c.len() && (forall|i: int|
                    0 <= i < v@.len() ==> (#[trigger] v@[i]) as int == c[i]),
                (Err(e), Err(k)) => e@ == k,
                _ => false,
            },
    {
        match chain_deep(&self.entries, &self.existing, start, self.entries.len() + 1) {
            Ok(v) => {
                let mut rev: Vec<usize> = Vec::new();
                let mut i: usize = v.len();
                while i > 0
                    invariant
                        0 <= i <= v@.len(),
                        rev@.len() == v@.len() - i,
                        forall|k: int|
                            0 <= k < rev@.len() ==> #[trigger] rev@[k] == v@[v@.len() - 1 - k],
                    decreases i,
                {
                    i -= 1;
                    rev.push(v[i]);
                }
                proof {
                    let c = spec_chain_deep(
                        self.entries@,
                        self.existing@,
                        start@,
                        (self.entries@.len() + 1) as nat,
                    )->Ok_0;
                    assert(forall|k: int|
                        0 <= k < rev@.len() ==> (#[trigger] rev@[k]) as int == c.reverse()[k]);
                }
                Ok(rev)
            }
            Err(e) => Err(e),
        }
    }
}

/// Law: a resolved chain is never empty, its last entry is the starting
/// file, and a config that extends nothing yields the singleton chain —
/// the base-most file is then the one at index 0.
pub proof fn lemma_chain_shape(
    entries: Seq<(String, TsConfigJson)>,
    existing: Seq<String>,
    start: Seq<char>,
)
    ensures
        spec_resolve_chain(entries, existing, start) matches Ok(c) ==> {
            &&& c.len() >= 1
            &&& 0 <= c.last() < entries.len()
            &&& entries[c.last()].0@ == start
            &&& (spec_extends_list(
                entries[spec_cfg_lookup(entries, start)].1.extends,
            ).len() == 0 ==> c =~= seq![spec_cfg_lookup(entries, start)])
        },
{
    let fuel = (entries.len() + 1) as nat;
    if spec_chain_deep(entries, existing, start, fuel) is Ok {
        let idx = spec_cfg_lookup(entries, start);
        lemma_cfg_lookup_bounds(entries, start, 0);
        let parent = match spec_parent_dir(start) {
            Some(p) => p,
            None => Seq::empty(),
        };
        let targets = spec_extends_targets(
            existing,
            parent,
            spec_extends_list(entries[idx].1.extends),
        );
        let inner = spec_chain_list(entries, existing, targets, (fuel - 1) as nat)->Ok_0;
        let deep = seq![idx] + inner;
        let c = spec_resolve_chain(entries, existing, start)->Ok_0;
        assert(c == deep.reverse());
        assert(c.last() == deep[0]);
        if spec_extends_list(entries[idx].1.extends).len() == 0 {
            assert(targets =~= Seq::<Seq<char>>::empty());
            assert(deep =~= seq![idx]);
            assert(c =~= seq![idx]);
        }
    }
}

proof fn lemma_cfg_lookup_bounds(entries: Seq<(String, TsConfigJson)>, path: Seq<char>, i: int)
    requires
        0 <= i <= entries.len(),
    ensures
        spec_cfg_lookup_from(entries, path, i) == -1 || (i <= spec_cfg_lookup_from(
            entries,
            path,
            i,
        ) < entries.len() && entries[spec_cfg_lookup_from(entries, path, i)].0@ == path),
    decreases entries.len() - i,
{
    if i < entries.len() && entries[i].0@ != path {
        lemma_cfg_lookup_bounds(entries, path, i + 1);
    }
}

} // verus!
