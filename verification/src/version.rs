use vstd::prelude::*;

use crate::semver_api::{
    is_op_char, req_parse, req_str_chars, req_to_string, seq_has_op, spec_req_parse, spec_req_str,
    spec_version_parse, spec_version_str, star_seq, version_parse, version_str_chars,
    version_to_string,
};
use crate::strutil::{
    append_vec, find_from, has_char, has_pair, lemma_find_first_at, lemma_spec_find_from, seq_has,
    seq_has_pair, spec_find_from, spec_trim, string_of, subvec, trim, vec_eq,
};
use crate::to_chars;
use crate::workspace::{
    spec_ws_parse, spec_ws_str, ws_wf, WorkspaceProtocol, WorkspaceProtocolError, WsErrKind,
    WsView,
};

verus! {

// ---------------------------------------------------------------------------
// The npm dependency grammar: a version requirement, an exact version, a
// hyphen range, an `||` alternative, a url, a git or github reference, a
// `file:`/`link:`/`portal:` path, or a `workspace:` protocol.
// ---------------------------------------------------------------------------

#[derive(PartialEq, Eq, Debug)]
pub enum VersionProtocolError {
    /// A hyphen range without a version before the hyphen.
    RangeMissingStartVersion,
    /// A hyphen range without a version after the hyphen.
    RangeMissingStopVersion,
    /// A version or requirement did not parse; the payload carries semver's
    /// message.
    Semver(String),
    Workspace(WorkspaceProtocolError),
}

/// The error cases, without their messages.
pub enum VpErrKind {
    RangeMissingStartVersion,
    RangeMissingStopVersion,
    Semver,
    Workspace(WsErrKind),
}

impl View for VersionProtocolError {
    type V = VpErrKind;

    open spec fn view(&self) -> VpErrKind {
        match self {
            VersionProtocolError::RangeMissingStartVersion => VpErrKind::RangeMissingStartVersion,
            VersionProtocolError::RangeMissingStopVersion => VpErrKind::RangeMissingStopVersion,
            VersionProtocolError::Semver(_) => VpErrKind::Semver,
            VersionProtocolError::Workspace(e) => VpErrKind::Workspace(e@),
        }
    }
}

#[derive(PartialEq, Eq, Debug)]
pub enum VersionProtocol {
    File(String),
    Git { reference: Option<String>, url: String },
    GitHub { reference: Option<String>, owner: String, repo: String },
    Link(String),
    Portal(String),
    Range(Vec<semver::VersionReq>),
    Requirement(semver::VersionReq),
    Url(String),
    Version(semver::Version),
    Workspace(WorkspaceProtocol),
}

/// The mathematical shape of a `VersionProtocol` value.
pub enum VpView {
    File(Seq<char>),
    Git { reference: Option<Seq<char>>, url: Seq<char> },
    GitHub { reference: Option<Seq<char>>, owner: Seq<char>, repo: Seq<char> },
    Link(Seq<char>),
    Portal(Seq<char>),
    Range(Seq<semver::VersionReq>),
    Requirement(semver::VersionReq),
    Url(Seq<char>),
    Version(semver::Version),
    Workspace(WsView),
}

pub open spec fn view_opt_str(a: &Option<String>) -> Option<Seq<char>> {
    match a {
        Some(x) => Some(x@),
        None => None,
    }
}

impl View for VersionProtocol {
    type V = VpView;

    open spec fn view(&self) -> VpView {
        match self {
            VersionProtocol::File(p) => VpView::File(p@),
            VersionProtocol::Git { reference, url } => VpView::Git {
                reference: view_opt_str(reference),
                url: url@,
            },
            VersionProtocol::GitHub { reference, owner, repo } => VpView::GitHub {
                reference: view_opt_str(reference),
                owner: owner@,
                repo: repo@,
            },
            VersionProtocol::Link(p) => VpView::Link(p@),
            VersionProtocol::Portal(p) => VpView::Portal(p@),
            VersionProtocol::Range(qs) => VpView::Range(qs@),
            VersionProtocol::Requirement(q) => VpView::Requirement(*q),
            VersionProtocol::Url(u) => VpView::Url(u@),
            VersionProtocol::Version(v) => VpView::Version(*v),
            VersionProtocol::Workspace(w) => VpView::Workspace(w@),
        }
    }
}

// ---------------------------------------------------------------------------
// The protocol prefix `<proto>:` with `proto` drawn from `[a-z+]`.
// ---------------------------------------------------------------------------

pub open spec fn is_proto_char(c: char) -> bool {
    ('a' <= c && c <= 'z') || c == '+'
}

/// Position of the first character at `i` or later that cannot belong to a
/// protocol name.
pub open spec fn spec_proto_end(s: Seq<char>, i: int) -> int
    decreases s.len() - i,
{
    if i < 0 || i >= s.len() || !is_proto_char(s[i]) {
        i
    } else {
        spec_proto_end(s, i + 1)
    }
}

pub proof fn lemma_proto_end(s: Seq<char>, from: int)
    requires
        0 <= from <= s.len(),
    ensures
        from <= spec_proto_end(s, from) <= s.len(),
        forall|j: int| from <= j < spec_proto_end(s, from) ==> is_proto_char(s[j]),
        spec_proto_end(s, from) < s.len() ==> !is_proto_char(s[spec_proto_end(s, from)]),
    decreases s.len() - from,
{
    if from < s.len() && is_proto_char(s[from]) {
        lemma_proto_end(s, from + 1);
    }
}

pub proof fn lemma_proto_end_at(s: Seq<char>, from: int, k: int)
    requires
        0 <= from <= k <= s.len(),
        forall|j: int| from <= j < k ==> is_proto_char(s[j]),
        k < s.len() ==> !is_proto_char(s[k]),
    ensures
        spec_proto_end(s, from) == k,
    decreases k - from,
{
    if from < k {
        lemma_proto_end_at(s, from + 1, k);
    }
}

/// Whether `s` opens with a protocol name and a colon.
pub open spec fn spec_has_proto(s: Seq<char>) -> bool {
    let k = spec_proto_end(s, 0);
    1 <= k < s.len() && s[k] == ':'
}

pub open spec fn spec_proto_name(s: Seq<char>) -> Seq<char> {
    s.subrange(0, spec_proto_end(s, 0))
}

/// The text after the protocol's colon.
pub open spec fn spec_proto_rest(s: Seq<char>) -> Seq<char> {
    s.subrange(spec_proto_end(s, 0) + 1, s.len() as int)
}

// ---------------------------------------------------------------------------
// The github shorthand `owner/repo` with an optional `#reference`.
// ---------------------------------------------------------------------------

pub open spec fn is_gh_name_char(c: char) -> bool {
    ('A' <= c && c <= 'Z') || ('a' <= c && c <= 'z') || ('0' <= c && c <= '9') || c == '_' || c
        == '.' || c == '-'
}

pub open spec fn is_gh_ref_char(c: char) -> bool {
    is_gh_name_char(c) || c == '/'
}

pub open spec fn all_gh_name(x: Seq<char>) -> bool {
    forall|i: int| 0 <= i < x.len() ==> is_gh_name_char(#[trigger] x[i])
}

pub open spec fn all_gh_ref(x: Seq<char>) -> bool {
    forall|i: int| 0 <= i < x.len() ==> is_gh_ref_char(#[trigger] x[i])
}

/// The parts of a github shorthand.
pub struct GhView {
    pub owner: Seq<char>,
    pub repo: Seq<char>,
    pub reference: Option<Seq<char>>,
}

/// Match `s` against `owner/repo` or `owner/repo#reference`, whole.
pub open spec fn spec_github(s: Seq<char>) -> Option<GhView> {
    let h = spec_find_from(s, '#', 0);
    let head = if h == -1 {
        s
    } else {
        s.subrange(0, h)
    };
    let sl = spec_find_from(head, '/', 0);
    if sl == -1 {
        None
    } else {
        let owner = head.subrange(0, sl);
        let repo = head.subrange(sl + 1, head.len() as int);
        let refr = if h == -1 {
            Option::<Seq<char>>::None
        } else {
            Some(s.subrange(h + 1, s.len() as int))
        };
        if owner.len() >= 1 && all_gh_name(owner) && repo.len() >= 1 && all_gh_name(repo) && (
        match refr {
            Some(c) => c.len() >= 1 && all_gh_ref(c),
            None => true,
        }) {
            Some(GhView { owner, repo, reference: refr })
        } else {
            None
        }
    }
}

// ---------------------------------------------------------------------------
// Splitting on `||`, leftmost and non-overlapping.
// ---------------------------------------------------------------------------

pub open spec fn spec_split_pipes_rec(s: Seq<char>, acc: Seq<char>) -> Seq<Seq<char>>
    decreases s.len(),
{
    if s.len() >= 2 && s[0] == '|' && s[1] == '|' {
        seq![acc] + spec_split_pipes_rec(s.skip(2), Seq::empty())
    } else if s.len() == 0 {
        seq![acc]
    } else {
        spec_split_pipes_rec(s.skip(1), acc.push(s[0]))
    }
}

pub open spec fn spec_split_pipes(s: Seq<char>) -> Seq<Seq<char>> {
    spec_split_pipes_rec(s, Seq::empty())
}

/// Parse every part of an `||` alternative, trimmed, failing on the first
/// part that semver rejects.
pub open spec fn spec_parse_ranges(parts: Seq<Seq<char>>) -> Result<Seq<semver::VersionReq>, ()>
    decreases parts.len(),
{
    if parts.len() == 0 {
        Ok(Seq::empty())
    } else {
        match spec_req_parse(spec_trim(parts[0])) {
            Some(q) => match spec_parse_ranges(parts.drop_first()) {
                Ok(rest) => Ok(seq![q] + rest),
                Err(e) => Err(e),
            },
            None => Err(()),
        }
    }
}

// ---------------------------------------------------------------------------
// Parsing, as a spec-level function.  The steps are tried in order: empty or
// `*`; a protocol prefix; the github shorthand; a hyphen range; an `||`
// alternative; a requirement; a plain version.
// ---------------------------------------------------------------------------

pub open spec fn lit_http() -> Seq<char> {
    seq!['h', 't', 't', 'p']
}

pub open spec fn lit_https() -> Seq<char> {
    seq!['h', 't', 't', 'p', 's']
}

pub open spec fn lit_git() -> Seq<char> {
    seq!['g', 'i', 't']
}

pub open spec fn lit_git_ssh() -> Seq<char> {
    seq!['g', 'i', 't', '+', 's', 's', 'h']
}

pub open spec fn lit_git_http() -> Seq<char> {
    seq!['g', 'i', 't', '+', 'h', 't', 't', 'p']
}

pub open spec fn lit_git_https() -> Seq<char> {
    seq!['g', 'i', 't', '+', 'h', 't', 't', 'p', 's']
}

pub open spec fn lit_git_file() -> Seq<char> {
    seq!['g', 'i', 't', '+', 'f', 'i', 'l', 'e']
}

pub open spec fn lit_file() -> Seq<char> {
    seq!['f', 'i', 'l', 'e']
}

pub open spec fn lit_link() -> Seq<char> {
    seq!['l', 'i', 'n', 'k']
}

pub open spec fn lit_portal() -> Seq<char> {
    seq!['p', 'o', 'r', 't', 'a', 'l']
}

pub open spec fn lit_workspace() -> Seq<char> {
    seq!['w', 'o', 'r', 'k', 's', 'p', 'a', 'c', 'e']
}

pub open spec fn is_git_proto(p: Seq<char>) -> bool {
    p == lit_git() || p == lit_git_ssh() || p == lit_git_http() || p == lit_git_https() || p
        == lit_git_file()
}

/// The parse of the range constructed from a hyphen split: `>=l, <=r`.
pub open spec fn spec_hyphen_range(l: Seq<char>, r: Seq<char>) -> Seq<char> {
    seq!['>', '='] + l + seq![',', ' ', '<', '='] + r
}

/// What parsing a version protocol text yields.
pub open spec fn spec_vp_parse(s: Seq<char>) -> Result<VpView, VpErrKind> {
    if s.len() == 0 || s == star_seq() {
        match spec_req_parse(star_seq()) {
            Some(q) => Ok(VpView::Requirement(q)),
            None => Err(VpErrKind::Semver),
        }
    } else if spec_has_proto(s) && (spec_proto_name(s) == lit_http() || spec_proto_name(s)
        == lit_https()) {
        Ok(VpView::Url(s))
    } else if spec_has_proto(s) && is_git_proto(spec_proto_name(s)) {
        let h = spec_find_from(s, '#', 0);
        if h == -1 {
            Ok(VpView::Git { url: s, reference: None })
        } else {
            Ok(
                VpView::Git {
                    url: s.subrange(0, h),
                    reference: Some(s.subrange(h + 1, s.len() as int)),
                },
            )
        }
    } else if spec_has_proto(s) && spec_proto_name(s) == lit_file() {
        Ok(VpView::File(spec_proto_rest(s)))
    } else if spec_has_proto(s) && spec_proto_name(s) == lit_link() {
        Ok(VpView::Link(spec_proto_rest(s)))
    } else if spec_has_proto(s) && spec_proto_name(s) == lit_portal() {
        Ok(VpView::Portal(spec_proto_rest(s)))
    } else if spec_has_proto(s) && spec_proto_name(s) == lit_workspace() {
        match spec_ws_parse(spec_proto_rest(s)) {
            Ok(w) => Ok(VpView::Workspace(w)),
            Err(k) => Err(VpErrKind::Workspace(k)),
        }
    } else if spec_github(s) is Some {
        let g = spec_github(s).unwrap();
        Ok(VpView::GitHub { owner: g.owner, repo: g.repo, reference: g.reference })
    } else if seq_has(s, '-') {
        let h = spec_find_from(s, '-', 0);
        let l = spec_trim(s.subrange(0, h));
        let r = spec_trim(s.subrange(h + 1, s.len() as int));
        if l.len() == 0 {
            Err(VpErrKind::RangeMissingStartVersion)
        } else if r.len() == 0 {
            Err(VpErrKind::RangeMissingStopVersion)
        } else {
            match spec_req_parse(spec_hyphen_range(l, r)) {
                Some(q) => Ok(VpView::Requirement(q)),
                None => Err(VpErrKind::Semver),
            }
        }
    } else if seq_has_pair(s, '|') {
        match spec_parse_ranges(spec_split_pipes(s)) {
            Ok(qs) => Ok(VpView::Range(qs)),
            Err(_) => Err(VpErrKind::Semver),
        }
    } else if seq_has_op(s) {
        match spec_req_parse(s) {
            Some(q) => Ok(VpView::Requirement(q)),
            None => Err(VpErrKind::Semver),
        }
    } else {
        match spec_version_parse(s) {
            Some(v) => Ok(VpView::Version(v)),
            None => Err(VpErrKind::Semver),
        }
    }
}

// ---------------------------------------------------------------------------
// Rendering, as a spec-level function.
// ---------------------------------------------------------------------------

pub open spec fn spec_opt_ref(r: Option<Seq<char>>) -> Seq<char> {
    match r {
        Some(c) => seq!['#'] + c,
        None => Seq::empty(),
    }
}

pub open spec fn spec_join_reqs(qs: Seq<semver::VersionReq>) -> Seq<char>
    decreases qs.len(),
{
    if qs.len() == 0 {
        Seq::empty()
    } else if qs.len() == 1 {
        spec_req_str(qs[0])
    } else {
        spec_req_str(qs[0]) + seq![' ', '|', '|', ' '] + spec_join_reqs(qs.drop_first())
    }
}

/// What rendering a version protocol yields.
pub open spec fn spec_vp_str(v: VpView) -> Seq<char> {
    match v {
        VpView::File(p) => lit_file() + seq![':'] + p,
        VpView::Git { reference, url } => url + spec_opt_ref(reference),
        VpView::GitHub { reference, owner, repo } => owner + seq!['/'] + repo + spec_opt_ref(
            reference,
        ),
        VpView::Link(p) => lit_link() + seq![':'] + p,
        VpView::Portal(p) => lit_portal() + seq![':'] + p,
        VpView::Range(qs) => spec_join_reqs(qs),
        VpView::Requirement(q) => spec_req_str(q),
        VpView::Url(u) => u,
        VpView::Version(ver) => spec_version_str(ver),
        VpView::Workspace(w) => lit_workspace() + seq![':'] + spec_ws_str(w),
    }
}

// ---------------------------------------------------------------------------
// What parsing guarantees of the value it returns.
// ---------------------------------------------------------------------------

pub open spec fn req_wf(q: semver::VersionReq) -> bool {
    &&& spec_req_parse(spec_req_str(q)) == Some(q)
    &&& req_str_chars(spec_req_str(q))
}

pub open spec fn vp_version_wf(v: semver::Version) -> bool {
    &&& spec_version_parse(spec_version_str(v)) == Some(v)
    &&& version_str_chars(spec_version_str(v))
}

pub open spec fn vp_wf(v: VpView) -> bool {
    match v {
        VpView::File(_) => true,
        VpView::Link(_) => true,
        VpView::Portal(_) => true,
        VpView::Url(u) => spec_has_proto(u) && (spec_proto_name(u) == lit_http()
            || spec_proto_name(u) == lit_https()),
        VpView::Git { reference, url } => spec_has_proto(url) && is_git_proto(spec_proto_name(url))
            && !seq_has(url, '#'),
        VpView::GitHub { reference, owner, repo } => owner.len() >= 1 && all_gh_name(owner)
            && repo.len() >= 1 && all_gh_name(repo) && (match reference {
            Some(c) => c.len() >= 1 && all_gh_ref(c),
            None => true,
        }),
        VpView::Range(qs) => qs.len() >= 2 && (forall|i: int|
            0 <= i < qs.len() ==> req_wf(#[trigger] qs[i]) && !seq_has(spec_req_str(qs[i]), '-')),
        VpView::Requirement(q) => req_wf(q) && (spec_req_str(q) == star_seq() || seq_has_op(
            spec_req_str(q),
        )),
        VpView::Version(ver) => vp_version_wf(ver) && !seq_has(spec_version_str(ver), '-'),
        VpView::Workspace(w) => ws_wf(w),
    }
}

// ---------------------------------------------------------------------------
// The executable parser.
// ---------------------------------------------------------------------------

fn is_proto_char_exec(c: char) -> (r: bool)
    ensures
        r == is_proto_char(c),
{
    ('a' <= c && c <= 'z') || c == '+'
}

fn is_gh_name_char_exec(c: char) -> (r: bool)
    ensures
        r == is_gh_name_char(c),
{
    ('A' <= c && c <= 'Z') || ('a' <= c && c <= 'z') || ('0' <= c && c <= '9') || c == '_' || c
        == '.' || c == '-'
}

fn all_gh_name_exec(v: &Vec<char>, from: usize, to: usize) -> (r: bool)
    requires
        from <= to <= v@.len(),
    ensures
        r == all_gh_name(v@.subrange(from as int, to as int)),
{
    let ghost sub = v@.subrange(from as int, to as int);
    let mut i: usize = from;
    while i < to
        invariant
            from <= i <= to <= v@.len(),
            sub == v@.subrange(from as int, to as int),
            forall|j: int| 0 <= j < i - from ==> is_gh_name_char(#[trigger] sub[j]),
        decreases to - i,
    {
        if !is_gh_name_char_exec(v[i]) {
            proof {
                assert(sub[i - from] == v@[i as int]);
            }
            return false;
        }
        i += 1;
    }
    true
}

fn all_gh_ref_exec(v: &Vec<char>, from: usize, to: usize) -> (r: bool)
    requires
        from <= to <= v@.len(),
    ensures
        r == all_gh_ref(v@.subrange(from as int, to as int)),
{
    let ghost sub = v@.subrange(from as int, to as int);
    let mut i: usize = from;
    while i < to
        invariant
            from <= i <= to <= v@.len(),
            sub == v@.subrange(from as int, to as int),
            forall|j: int| 0 <= j < i - from ==> is_gh_ref_char(#[trigger] sub[j]),
        decreases to - i,
    {
        let c = v[i];
        if !(is_gh_name_char_exec(c) || c == '/') {
            proof {
                assert(sub[i - from] == v@[i as int]);
            }
            return false;
        }
        i += 1;
    }
    true
}

struct GhParts {
    owner: Vec<char>,
    repo: Vec<char>,
    reference: Option<Vec<char>>,
}

fn github_match(v: &Vec<char>) -> (r: Option<GhParts>)
    ensures
        match (r, spec_github(v@)) {
            (Some(g), Some(sg)) => g.owner@ == sg.owner && g.repo@ == sg.repo && (match (
                g.reference,
                sg.reference,
            ) {
                (Some(c), Some(sc)) => c@ == sc,
                (None, None) => true,
                _ => false,
            }),
            (None, None) => true,
            _ => false,
        },
{
    let ghost h = spec_find_from(v@, '#', 0);
    proof {
        lemma_spec_find_from(v@, '#', 0);
    }
    let hx = find_from(v, '#', 0);
    let head_end: usize = match hx {
        Some(i) => {
            proof {
                lemma_find_first_at(v@, '#', 0, i as int);
            }
            i
        }
        None => v.len(),
    };
    proof {
        if hx is Some {
            assert(h == hx.unwrap());
        } else {
            assert(h == -1);
        }
    }
    let ghost head = if h == -1 {
        v@
    } else {
        v@.subrange(0, h)
    };
    proof {
        assert(head =~= v@.subrange(0, head_end as int));
    }
    let headv = subvec(v, 0, head_end);
    let ghost sl = spec_find_from(head, '/', 0);
    proof {
        lemma_spec_find_from(head, '/', 0);
    }
    let slx = find_from(&headv, '/', 0);
    match slx {
        None => {
            proof {
                assert(sl == -1);
            }
            None
        }
        Some(si) => {
            proof {
                lemma_find_first_at(head, '/', 0, si as int);
                assert(sl == si);
            }
            let owner_ok = si >= 1 && all_gh_name_exec(&headv, 0, si);
            let repo_ok = si + 1 < headv.len() && all_gh_name_exec(&headv, si + 1, headv.len());
            proof {
                assert(headv@.subrange(0, si as int) =~= head.subrange(0, sl));
                assert(headv@.subrange(si + 1 as int, headv@.len() as int) =~= head.subrange(
                    sl + 1,
                    head.len() as int,
                ));
            }
            if !(owner_ok && repo_ok) {
                return None;
            }
            let ref_ok: bool = match hx {
                Some(i) => {
                    proof {
                        assert(i < v@.len());
                    }
                    let ok = i < v.len() && i + 1 < v.len() && all_gh_ref_exec(
                        v,
                        i + 1,
                        v.len(),
                    );
                    proof {
                        assert(v@.subrange(i + 1 as int, v@.len() as int) =~= v@.subrange(
                            h + 1,
                            v@.len() as int,
                        ));
                    }
                    ok
                }
                None => true,
            };
            if !ref_ok {
                return None;
            }
            let owner = subvec(&headv, 0, si);
            let repo = subvec(&headv, si + 1, headv.len());
            let reference: Option<Vec<char>> = match hx {
                Some(i) => Some(subvec(v, i + 1, v.len())),
                None => None,
            };
            Some(GhParts { owner, repo, reference })
        }
    }
}

pub open spec fn views_of(vs: Seq<Vec<char>>) -> Seq<Seq<char>> {
    Seq::new(vs.len(), |i: int| vs[i]@)
}

fn split_pipes(v: &Vec<char>) -> (r: Vec<Vec<char>>)
    ensures
        views_of(r@) == spec_split_pipes(v@),
{
    let mut out: Vec<Vec<char>> = Vec::new();
    let mut cur: Vec<char> = Vec::new();
    let mut i: usize = 0;
    proof {
        assert(v@.subrange(0, v@.len() as int) =~= v@);
        assert(views_of(out@) =~= Seq::<Seq<char>>::empty());
    }
    while i < v.len()
        invariant
            0 <= i <= v@.len(),
            spec_split_pipes(v@) == views_of(out@) + spec_split_pipes_rec(
                v@.subrange(i as int, v@.len() as int),
                cur@,
            ),
        decreases v@.len() - i,
    {
        let ghost rest = v@.subrange(i as int, v@.len() as int);
        let ghost dv0 = views_of(out@);
        if i + 1 < v.len() && v[i] == '|' && v[i + 1] == '|' {
            proof {
                assert(rest[0] == v@[i as int] && rest[1] == v@[i + 1]);
                assert(rest.skip(2) =~= v@.subrange(i + 2 as int, v@.len() as int));
            }
            let ghost cv = cur@;
            out.push(cur);
            cur = Vec::new();
            i += 2;
            proof {
                assert(views_of(out@) =~= dv0.push(cv));
                assert(dv0.push(cv) =~= dv0 + seq![cv]);
                assert((dv0 + seq![cv]) + spec_split_pipes_rec(
                    v@.subrange(i as int, v@.len() as int),
                    cur@,
                ) =~= dv0 + (seq![cv] + spec_split_pipes_rec(
                    v@.subrange(i as int, v@.len() as int),
                    cur@,
                )));
            }
        } else {
            proof {
                assert(rest.skip(1) =~= v@.subrange(i + 1 as int, v@.len() as int));
                assert(rest[0] == v@[i as int]);
                assert(!(rest.len() >= 2 && rest[0] == '|' && rest[1] == '|')) by {
                    if rest.len() >= 2 && rest[0] == '|' && rest[1] == '|' {
                        assert(v@[i as int] == '|' && v@[i + 1] == '|');
                    }
                }
            }
            cur.push(v[i]);
            i += 1;
        }
    }
    proof {
        assert(v@.subrange(v@.len() as int, v@.len() as int) =~= Seq::<char>::empty());
    }
    let ghost dv0 = views_of(out@);
    let ghost cv = cur@;
    out.push(cur);
    proof {
        assert(views_of(out@) =~= dv0.push(cv));
        assert(dv0.push(cv) =~= dv0 + seq![cv]);
    }
    out
}

impl VersionProtocol {
    /// Parse a dependency constraint.
    #[verifier::loop_isolation(false)]
    pub fn parse(s: &str) -> (r: Result<VersionProtocol, VersionProtocolError>)
        ensures
            match (r, spec_vp_parse(s@)) {
                (Ok(v), Ok(sv)) => v@ == sv && vp_wf(sv),
                (Err(e), Err(k)) => e@ == k,
                _ => false,
            },
    {
        let chars = to_chars(s);
        let star = vec!['*'];
        proof {
            assert(star@ =~= star_seq());
        }
        if chars.len() == 0 || vec_eq(&chars, &star) {
            let star_str = string_of(&star);
            return match req_parse(star_str.as_str()) {
                Ok(q) => Ok(VersionProtocol::Requirement(q)),
                Err(m) => Err(VersionProtocolError::Semver(m)),
            };
        }
        // Protocol prefix.
        let mut k: usize = 0;
        while k < chars.len() && is_proto_char_exec(chars[k])
            invariant
                0 <= k <= chars@.len(),
                forall|j: int| 0 <= j < k ==> is_proto_char(chars@[j]),
            decreases chars@.len() - k,
        {
            k += 1;
        }
        proof {
            lemma_proto_end_at(chars@, 0, k as int);
        }
        let has_proto = 1 <= k && k < chars.len() && chars[k] == ':';
        proof {
            assert(has_proto == spec_has_proto(s@));
        }
        if has_proto {
            let proto = subvec(&chars, 0, k);
            proof {
                assert(proto@ == spec_proto_name(s@));
            }
            let http = vec!['h', 't', 't', 'p'];
            let https = vec!['h', 't', 't', 'p', 's'];
            let git = vec!['g', 'i', 't'];
            let git_ssh = vec!['g', 'i', 't', '+', 's', 's', 'h'];
            let git_http = vec!['g', 'i', 't', '+', 'h', 't', 't', 'p'];
            let git_https = vec!['g', 'i', 't', '+', 'h', 't', 't', 'p', 's'];
            let git_file = vec!['g', 'i', 't', '+', 'f', 'i', 'l', 'e'];
            let file = vec!['f', 'i', 'l', 'e'];
            let link = vec!['l', 'i', 'n', 'k'];
            let portal = vec!['p', 'o', 'r', 't', 'a', 'l'];
            let workspace = vec!['w', 'o', 'r', 'k', 's', 'p', 'a', 'c', 'e'];
            proof {
                assert(http@ =~= lit_http());
                assert(https@ =~= lit_https());
                assert(git@ =~= lit_git());
                assert(git_ssh@ =~= lit_git_ssh());
                assert(git_http@ =~= lit_git_http());
                assert(git_https@ =~= lit_git_https());
                assert(git_file@ =~= lit_git_file());
                assert(file@ =~= lit_file());
                assert(link@ =~= lit_link());
                assert(portal@ =~= lit_portal());
                assert(workspace@ =~= lit_workspace());
            }
            if vec_eq(&proto, &http) || vec_eq(&proto, &https) {
                return Ok(VersionProtocol::Url(string_of(&chars)));
            }
            if vec_eq(&proto, &git) || vec_eq(&proto, &git_ssh) || vec_eq(&proto, &git_http)
                || vec_eq(&proto, &git_https) || vec_eq(&proto, &git_file) {
                proof {
                    lemma_spec_find_from(s@, '#', 0);
                }
                return match find_from(&chars, '#', 0) {
                    Some(h) => {
                        proof {
                            lemma_find_first_at(s@, '#', 0, h as int);
                        }
                        let url = subvec(&chars, 0, h);
                        let reference = subvec(&chars, h + 1, chars.len());
                        proof {
                            assert(forall|j: int| 0 <= j < url@.len() ==> url@[j] == s@[j]);
                            assert(h > k) by {
                                if (h as int) < k as int {
                                    assert(is_proto_char(s@[h as int]));
                                } else if h as int == k as int {
                                    assert(s@[k as int] == ':');
                                }
                            }
                            lemma_proto_end_at(url@, 0, k as int);
                            assert(spec_proto_name(url@) =~= spec_proto_name(s@));
                            assert(!seq_has(url@, '#')) by {
                                if seq_has(url@, '#') {
                                    let x = choose|x: int|
                                        0 <= x < url@.len() && url@[x] == '#';
                                    assert(s@[x] == '#');
                                }
                            }
                        }
                        Ok(
                            VersionProtocol::Git {
                                url: string_of(&url),
                                reference: Some(string_of(&reference)),
                            },
                        )
                    }
                    None => {
                        proof {
                            assert(!seq_has(s@, '#')) by {
                                if seq_has(s@, '#') {
                                    let x = choose|x: int|
                                        0 <= x < s@.len() && s@[x] == '#';
                                    assert(crate::strutil::seq_has_from(s@, '#', 0));
                                }
                            }
                        }
                        Ok(VersionProtocol::Git { url: string_of(&chars), reference: None })
                    }
                };
            }
            if vec_eq(&proto, &file) {
                let rest = subvec(&chars, k + 1, chars.len());
                return Ok(VersionProtocol::File(string_of(&rest)));
            }
            if vec_eq(&proto, &link) {
                let rest = subvec(&chars, k + 1, chars.len());
                return Ok(VersionProtocol::Link(string_of(&rest)));
            }
            if vec_eq(&proto, &portal) {
                let rest = subvec(&chars, k + 1, chars.len());
                return Ok(VersionProtocol::Portal(string_of(&rest)));
            }
            if vec_eq(&proto, &workspace) {
                let rest = subvec(&chars, k + 1, chars.len());
                let rest_str = string_of(&rest);
                return match WorkspaceProtocol::parse(rest_str.as_str()) {
                    Ok(w) => Ok(VersionProtocol::Workspace(w)),
                    Err(e) => Err(VersionProtocolError::Workspace(e)),
                };
            }
        }
        // Github shorthand.
        match github_match(&chars) {
            Some(g) => {
                return Ok(
                    VersionProtocol::GitHub {
                        owner: string_of(&g.owner),
                        repo: string_of(&g.repo),
                        reference: match g.reference {
                            Some(c) => Some(string_of(&c)),
                            None => None,
                        },
                    },
                );
            }
            None => {}
        }
        // Hyphen range.
        proof {
            lemma_spec_find_from(s@, '-', 0);
        }
        match find_from(&chars, '-', 0) {
            Some(h) => {
                proof {
                    lemma_find_first_at(s@, '-', 0, h as int);
                }
                let lpart = subvec(&chars, 0, h);
                let rpart = subvec(&chars, h + 1, chars.len());
                let l = trim(&lpart);
                let r = trim(&rpart);
                if l.len() == 0 {
                    return Err(VersionProtocolError::RangeMissingStartVersion);
                }
                if r.len() == 0 {
                    return Err(VersionProtocolError::RangeMissingStopVersion);
                }
                let mut cons: Vec<char> = vec!['>', '='];
                append_vec(&mut cons, &l);
                let sep = vec![',', ' ', '<', '='];
                append_vec(&mut cons, &sep);
                append_vec(&mut cons, &r);
                proof {
                    assert(cons@ =~= spec_hyphen_range(l@, r@));
                    assert(seq_has_op(cons@)) by {
                        assert(cons@[0] == '>');
                    }
                }
                let cons_str = string_of(&cons);
                return match req_parse(cons_str.as_str()) {
                    Ok(q) => Ok(VersionProtocol::Requirement(q)),
                    Err(m) => Err(VersionProtocolError::Semver(m)),
                };
            }
            None => {
                proof {
                    assert(!seq_has(s@, '-')) by {
                        if seq_has(s@, '-') {
                            let x = choose|x: int| 0 <= x < s@.len() && s@[x] == '-';
                            assert(crate::strutil::seq_has_from(s@, '-', 0));
                        }
                    }
                }
            }
        }
        // `||` alternatives.
        if has_pair(&chars, '|') {
            let parts = split_pipes(&chars);
            let mut qs: Vec<semver::VersionReq> = Vec::new();
            let mut i: usize = 0;
            let ghost sparts = spec_split_pipes(s@);
            proof {
                assert(sparts.skip(0) =~= sparts);
            }
            while i < parts.len()
                invariant
                    0 <= i <= parts@.len(),
                    views_of(parts@) == sparts,
                    !seq_has(s@, '-'),
                    spec_parse_ranges(sparts) is Ok ==> {
                        &&& spec_parse_ranges(sparts.skip(i as int)) is Ok
                        &&& spec_parse_ranges(sparts).unwrap() =~= qs@ + spec_parse_ranges(
                            sparts.skip(i as int),
                        ).unwrap()
                    },
                    spec_parse_ranges(sparts) is Err ==> spec_parse_ranges(
                        sparts.skip(i as int),
                    ) is Err,
                    qs@.len() == i,
                    forall|j: int|
                        0 <= j < qs@.len() ==> req_wf(#[trigger] qs@[j]) && !seq_has(
                            spec_req_str(qs@[j]),
                            '-',
                        ),
                decreases parts@.len() - i,
            {
                let part = trim(&parts[i]);
                proof {
                    assert(views_of(parts@)[i as int] == sparts[i as int]);
                    assert(parts@[i as int]@ == sparts[i as int]);
                    assert(sparts.skip(i as int)[0] == sparts[i as int]);
                    assert(sparts.skip(i as int).drop_first() =~= sparts.skip(i + 1 as int));
                    assert(!seq_has(part@, '-')) by {
                        if seq_has(part@, '-') {
                            let x = choose|x: int|
                                0 <= x < part@.len() && part@[x] == '-';
                            lemma_trim_part_of(s@, sparts, i as int);
                            assert(part@ == spec_trim(sparts[i as int]));
                            assert(spec_trim(sparts[i as int])[x] == '-');
                            assert(seq_has(s@, '-'));
                        }
                    }
                }
                let part_str = string_of(&part);
                match req_parse(part_str.as_str()) {
                    Ok(q) => {
                        qs.push(q);
                        proof {
                            if spec_parse_ranges(sparts) is Ok {
                                assert(spec_parse_ranges(sparts).unwrap() =~= qs@
                                    + spec_parse_ranges(sparts.skip(i + 1 as int)).unwrap());
                            }
                        }
                    }
                    Err(m) => {
                        proof {
                            assert(spec_parse_ranges(sparts.skip(i as int)) is Err);
                            assert(spec_parse_ranges(sparts) is Err) by {
                                if spec_parse_ranges(sparts) is Ok {
                                    assert(spec_parse_ranges(sparts.skip(i as int)) is Ok);
                                }
                            }
                        }
                        return Err(VersionProtocolError::Semver(m));
                    }
                }
                i += 1;
            }
            proof {
                assert(sparts.skip(parts@.len() as int) =~= Seq::<Seq<char>>::empty());
                assert(spec_parse_ranges(Seq::<Seq<char>>::empty()) == Ok::<
                    Seq<semver::VersionReq>,
                    (),
                >(Seq::empty()));
                assert(spec_parse_ranges(sparts) is Ok);
                assert(spec_parse_ranges(sparts).unwrap() =~= qs@);
                lemma_split_pipes_count(s@);
            }
            return Ok(VersionProtocol::Range(qs));
        }
        // A requirement with an operator.
        let has_op = {
            let mut found = false;
            let mut i: usize = 0;
            while i < chars.len()
                invariant
                    0 <= i <= chars@.len(),
                    found == exists|j: int| 0 <= j < i && is_op_char(chars@[j]),
                decreases chars@.len() - i,
            {
                let c = chars[i];
                if c == '^' || c == '~' || c == '>' || c == '<' || c == '=' {
                    found = true;
                }
                i += 1;
            }
            found
        };
        proof {
            assert(has_op == seq_has_op(s@));
        }
        if has_op {
            return match req_parse(s) {
                Ok(q) => Ok(VersionProtocol::Requirement(q)),
                Err(m) => Err(VersionProtocolError::Semver(m)),
            };
        }
        // A plain version.
        match version_parse(s) {
            Ok(v) => Ok(VersionProtocol::Version(v)),
            Err(m) => Err(VersionProtocolError::Semver(m)),
        }
    }
}

impl VersionProtocol {
    /// Render the canonical text of the constraint.
    pub fn format(&self) -> (r: String)
        ensures
            r@ == spec_vp_str(self@),
    {
        let mut out: Vec<char> = Vec::new();
        match self {
            VersionProtocol::File(p) => {
                let mut pre = vec!['f', 'i', 'l', 'e', ':'];
                append_vec(&mut out, &pre);
                let pc = to_chars(p.as_str());
                append_vec(&mut out, &pc);
                proof {
                    assert(out@ =~= lit_file() + seq![':'] + p@);
                }
            }
            VersionProtocol::Git { reference, url } => {
                let uc = to_chars(url.as_str());
                append_vec(&mut out, &uc);
                match reference {
                    Some(c) => {
                        out.push('#');
                        let cc = to_chars(c.as_str());
                        append_vec(&mut out, &cc);
                        proof {
                            assert(out@ =~= url@ + (seq!['#'] + c@));
                        }
                    }
                    None => {
                        proof {
                            assert(out@ =~= url@ + Seq::<char>::empty());
                        }
                    }
                }
            }
            VersionProtocol::GitHub { reference, owner, repo } => {
                let oc = to_chars(owner.as_str());
                append_vec(&mut out, &oc);
                out.push('/');
                let rc = to_chars(repo.as_str());
                append_vec(&mut out, &rc);
                match reference {
                    Some(c) => {
                        out.push('#');
                        let cc = to_chars(c.as_str());
                        append_vec(&mut out, &cc);
                        proof {
                            assert(out@ =~= owner@ + seq!['/'] + repo@ + (seq!['#'] + c@));
                        }
                    }
                    None => {
                        proof {
                            assert(out@ =~= owner@ + seq!['/'] + repo@ + Seq::<char>::empty());
                        }
                    }
                }
            }
            VersionProtocol::Link(p) => {
                let mut pre = vec!['l', 'i', 'n', 'k', ':'];
                append_vec(&mut out, &pre);
                let pc = to_chars(p.as_str());
                append_vec(&mut out, &pc);
                proof {
                    assert(out@ =~= lit_link() + seq![':'] + p@);
                }
            }
            VersionProtocol::Portal(p) => {
                let mut pre = vec!['p', 'o', 'r', 't', 'a', 'l', ':'];
                append_vec(&mut out, &pre);
                let pc = to_chars(p.as_str());
                append_vec(&mut out, &pc);
                proof {
                    assert(out@ =~= lit_portal() + seq![':'] + p@);
                }
            }
            VersionProtocol::Range(qs) => {
                let mut i: usize = 0;
                proof {
                    assert(qs@.subrange(0, 0) =~= Seq::<semver::VersionReq>::empty());
                }
                while i < qs.len()
                    invariant
                        0 <= i <= qs@.len(),
                        out@ == spec_join_reqs(qs@.subrange(0, i as int)),
                    decreases qs@.len() - i,
                {
                    if i > 0 {
                        let sep = vec![' ', '|', '|', ' '];
                        append_vec(&mut out, &sep);
                    }
                    let t = req_to_string(&qs[i]);
                    let tc = to_chars(t.as_str());
                    append_vec(&mut out, &tc);
                    proof {
                        lemma_join_push(qs@.subrange(0, i as int), qs@[i as int]);
                        assert(qs@.subrange(0, i + 1 as int) =~= qs@.subrange(0, i as int).push(
                            qs@[i as int],
                        ));
                        if i == 0 {
                            assert(out@ =~= spec_req_str(qs@[0]));
                        } else {
                            assert(out@ =~= spec_join_reqs(qs@.subrange(0, i as int)) + seq![
                                ' ',
                                '|',
                                '|',
                                ' ',
                            ] + spec_req_str(qs@[i as int]));
                        }
                    }
                    i += 1;
                }
                proof {
                    assert(qs@.subrange(0, qs@.len() as int) =~= qs@);
                }
            }
            VersionProtocol::Requirement(q) => {
                let t = req_to_string(q);
                let tc = to_chars(t.as_str());
                append_vec(&mut out, &tc);
            }
            VersionProtocol::Url(u) => {
                let uc = to_chars(u.as_str());
                append_vec(&mut out, &uc);
            }
            VersionProtocol::Version(v) => {
                let t = version_to_string(v);
                let tc = to_chars(t.as_str());
                append_vec(&mut out, &tc);
            }
            VersionProtocol::Workspace(w) => {
                let mut pre = vec![
                    'w',
                    'o',
                    'r',
                    'k',
                    's',
                    'p',
                    'a',
                    'c',
                    'e',
                    ':',
                ];
                append_vec(&mut out, &pre);
                let t = w.format();
                let tc = to_chars(t.as_str());
                append_vec(&mut out, &tc);
                proof {
                    assert(out@ =~= lit_workspace() + seq![':'] + spec_ws_str(w@));
                }
            }
        }
        string_of(&out)
    }
}

/// Appending one requirement extends the rendered alternative by a separator
/// and its text.
proof fn lemma_join_push(qs: Seq<semver::VersionReq>, q: semver::VersionReq)
    ensures
        qs.len() == 0 ==> spec_join_reqs(qs.push(q)) == spec_req_str(q),
        qs.len() > 0 ==> spec_join_reqs(qs.push(q)) =~= spec_join_reqs(qs) + seq![
            ' ',
            '|',
            '|',
            ' ',
        ] + spec_req_str(q),
    decreases qs.len(),
{
    let p = qs.push(q);
    if qs.len() == 0 {
        assert(p.len() == 1);
        assert(p[0] == q);
    } else {
        lemma_join_push(qs.drop_first(), q);
        assert(p.drop_first() =~= qs.drop_first().push(q));
        assert(p[0] == qs[0]);
        if qs.len() == 1 {
            assert(spec_join_reqs(p) == spec_req_str(p[0]) + seq![' ', '|', '|', ' ']
                + spec_join_reqs(p.drop_first()));
        }
    }
}

/// Every part that the `||` split yields is, trimmed, free of characters the
/// whole text does not hold.
proof fn lemma_trim_part_of(s: Seq<char>, sparts: Seq<Seq<char>>, i: int)
    requires
        sparts == spec_split_pipes(s),
        0 <= i < sparts.len(),
    ensures
        forall|x: int|
            0 <= x < spec_trim(sparts[i]).len() ==> seq_has(s, #[trigger] spec_trim(sparts[i])[x]),
{
    lemma_split_pipes_chars(s, Seq::empty(), i);
    lemma_trim_chars(sparts[i]);
    assert forall|x: int|
        0 <= x < spec_trim(sparts[i]).len() implies seq_has(s, #[trigger] spec_trim(sparts[i])[x])
    by {
        let c = spec_trim(sparts[i])[x];
        assert(seq_has(sparts[i], c));
        let y = choose|y: int| 0 <= y < sparts[i].len() && sparts[i][y] == c;
        assert(seq_has(Seq::<char>::empty() + s, c));
        assert(Seq::<char>::empty() + s =~= s);
    }
}

/// Characters of the trimmed text occur in the text.
proof fn lemma_trim_chars(s: Seq<char>)
    ensures
        forall|x: int| 0 <= x < spec_trim(s).len() ==> seq_has(s, #[trigger] spec_trim(s)[x]),
{
    lemma_trim_start_chars(s);
    let t = crate::strutil::spec_trim_start(s);
    lemma_trim_end_chars(t);
    assert forall|x: int| 0 <= x < spec_trim(s).len() implies seq_has(s, #[trigger] spec_trim(s)[x])
    by {
        let c = spec_trim(s)[x];
        assert(c == crate::strutil::spec_trim_end(t)[x]);
        assert(seq_has(t, c));
        let y = choose|y: int| 0 <= y < t.len() && t[y] == c;
        assert(seq_has(s, c));
    }
}

proof fn lemma_trim_start_chars(s: Seq<char>)
    ensures
        forall|x: int|
            0 <= x < crate::strutil::spec_trim_start(s).len() ==> seq_has(
                s,
                #[trigger] crate::strutil::spec_trim_start(s)[x],
            ),
    decreases s.len(),
{
    if s.len() > 0 && crate::strutil::is_blank(s[0]) {
        lemma_trim_start_chars(s.drop_first());
        assert forall|x: int|
            0 <= x < crate::strutil::spec_trim_start(s).len() implies seq_has(
            s,
            #[trigger] crate::strutil::spec_trim_start(s)[x],
        ) by {
            let c = crate::strutil::spec_trim_start(s)[x];
            assert(crate::strutil::spec_trim_start(s) == crate::strutil::spec_trim_start(
                s.drop_first(),
            ));
            assert(c == crate::strutil::spec_trim_start(s.drop_first())[x]);
            assert(seq_has(s.drop_first(), c));
            let y = choose|y: int| 0 <= y < s.drop_first().len() && s.drop_first()[y] == c;
            assert(s[y + 1] == c);
        }
    }
}

proof fn lemma_trim_end_chars(s: Seq<char>)
    ensures
        forall|x: int|
            0 <= x < crate::strutil::spec_trim_end(s).len() ==> seq_has(
                s,
                #[trigger] crate::strutil::spec_trim_end(s)[x],
            ),
    decreases s.len(),
{
    if s.len() > 0 && crate::strutil::is_blank(s[s.len() - 1]) {
        lemma_trim_end_chars(s.drop_last());
        assert forall|x: int|
            0 <= x < crate::strutil::spec_trim_end(s).len() implies seq_has(
            s,
            #[trigger] crate::strutil::spec_trim_end(s)[x],
        ) by {
            let c = crate::strutil::spec_trim_end(s)[x];
            assert(crate::strutil::spec_trim_end(s) == crate::strutil::spec_trim_end(
                s.drop_last(),
            ));
            assert(c == crate::strutil::spec_trim_end(s.drop_last())[x]);
            assert(seq_has(s.drop_last(), c));
            let y = choose|y: int| 0 <= y < s.drop_last().len() && s.drop_last()[y] == c;
            assert(s[y] == c);
        }
    }
}

/// Characters of any `||` part occur in the accumulator or the text.
proof fn lemma_split_pipes_chars(s: Seq<char>, acc: Seq<char>, i: int)
    requires
        0 <= i < spec_split_pipes_rec(s, acc).len(),
    ensures
        forall|x: int|
            0 <= x < spec_split_pipes_rec(s, acc)[i].len() ==> seq_has(
                acc + s,
                #[trigger] spec_split_pipes_rec(s, acc)[i][x],
            ),
    decreases s.len(),
{
    let parts = spec_split_pipes_rec(s, acc);
    if s.len() >= 2 && s[0] == '|' && s[1] == '|' {
        if i == 0 {
            assert forall|x: int| 0 <= x < parts[i].len() implies seq_has(
                acc + s,
                #[trigger] parts[i][x],
            ) by {
                assert(parts[0] == acc);
                assert((acc + s)[x] == acc[x]);
            }
        } else {
            lemma_split_pipes_chars(s.skip(2), Seq::empty(), i - 1);
            assert forall|x: int| 0 <= x < parts[i].len() implies seq_has(
                acc + s,
                #[trigger] parts[i][x],
            ) by {
                let c = parts[i][x];
                assert(parts[i] == spec_split_pipes_rec(s.skip(2), Seq::empty())[i - 1]);
                assert(seq_has(Seq::<char>::empty() + s.skip(2), c));
                let y = choose|y: int|
                    0 <= y < (Seq::<char>::empty() + s.skip(2)).len() && (Seq::<char>::empty()
                        + s.skip(2))[y] == c;
                assert(s[y + 2] == c);
                assert((acc + s)[acc.len() + y + 2] == c);
            }
        }
    } else if s.len() == 0 {
        assert forall|x: int| 0 <= x < parts[i].len() implies seq_has(
            acc + s,
            #[trigger] parts[i][x],
        ) by {
            assert(parts[0] == acc);
            assert((acc + s)[x] == acc[x]);
        }
    } else {
        lemma_split_pipes_chars(s.skip(1), acc.push(s[0]), i);
        assert forall|x: int| 0 <= x < parts[i].len() implies seq_has(
            acc + s,
            #[trigger] parts[i][x],
        ) by {
            let c = parts[i][x];
            assert(parts[i] == spec_split_pipes_rec(s.skip(1), acc.push(s[0]))[i]);
            assert(seq_has(acc.push(s[0]) + s.skip(1), c));
            let y = choose|y: int|
                0 <= y < (acc.push(s[0]) + s.skip(1)).len() && (acc.push(s[0]) + s.skip(1))[y]
                    == c;
            assert(acc.push(s[0]) + s.skip(1) =~= acc + s);
        }
    }
}

// ---------------------------------------------------------------------------
// The round trip: a successfully parsed protocol re-parses from its own
// rendering.
// ---------------------------------------------------------------------------

/// A text of the shape `name:rest`, with `name` drawn from `[a-z+]`, opens
/// with exactly that protocol name.
proof fn lemma_proto_prefix(name: Seq<char>, rest: Seq<char>)
    requires
        name.len() >= 1,
        forall|j: int| 0 <= j < name.len() ==> is_proto_char(#[trigger] name[j]),
    ensures
        spec_has_proto(name + seq![':'] + rest),
        spec_proto_name(name + seq![':'] + rest) == name,
        spec_proto_rest(name + seq![':'] + rest) == rest,
{
    let d = name + seq![':'] + rest;
    assert(d[name.len() as int] == ':');
    assert(forall|j: int| 0 <= j < name.len() ==> d[j] == name[j]);
    lemma_proto_end_at(d, 0, name.len() as int);
    assert(d.subrange(0, name.len() as int) =~= name);
    assert(d.subrange(name.len() as int + 1, d.len() as int) =~= rest);
}

/// Without a colon there is no protocol prefix.
proof fn lemma_no_colon_no_proto(d: Seq<char>)
    requires
        !seq_has(d, ':'),
    ensures
        !spec_has_proto(d),
{
    if spec_has_proto(d) {
        let k = spec_proto_end(d, 0);
        assert(d[k] == ':');
    }
}

/// Without a slash the github shorthand cannot match.
proof fn lemma_no_slash_no_github(d: Seq<char>)
    requires
        !seq_has(d, '/'),
    ensures
        spec_github(d) is None,
{
    let h = spec_find_from(d, '#', 0);
    let head = if h == -1 {
        d
    } else {
        d.subrange(0, h)
    };
    lemma_spec_find_from(d, '#', 0);
    if h != -1 {
        assert(0 <= h <= d.len());
    }
    lemma_spec_find_from(head, '/', 0);
    if spec_find_from(head, '/', 0) != -1 {
        let sl = spec_find_from(head, '/', 0);
        assert(head[sl] == '/');
        assert(d[sl] == '/');
    }
}

/// A text free of `|` cannot break at a `||` and so joins the accumulator.
proof fn lemma_split_plain(x: Seq<char>, s2: Seq<char>, acc: Seq<char>)
    requires
        !seq_has(x, '|'),
    ensures
        spec_split_pipes_rec(x + s2, acc) == spec_split_pipes_rec(s2, acc + x),
    decreases x.len(),
{
    if x.len() == 0 {
        assert(x + s2 =~= s2);
        assert(acc + x =~= acc);
    } else {
        let d = x + s2;
        assert(d[0] == x[0]);
        assert(x[0] != '|');
        assert(d.len() > 0);
        assert(d.skip(1) =~= x.skip(1) + s2);
        assert(!seq_has(x.skip(1), '|')) by {
            if seq_has(x.skip(1), '|') {
                let y = choose|y: int| 0 <= y < x.skip(1).len() && x.skip(1)[y] == '|';
                assert(x[y + 1] == '|');
            }
        }
        lemma_split_plain(x.skip(1), s2, acc.push(x[0]));
        assert(acc.push(x[0]) + x.skip(1) =~= acc + x);
    }
}

/// Trimming strips a single leading or trailing blank from a text that has
/// none of its own.
proof fn lemma_trim_pad(x: Seq<char>, a: Seq<char>, b: Seq<char>)
    requires
        x.len() > 0,
        !crate::strutil::is_blank(x[0]),
        !crate::strutil::is_blank(x[x.len() - 1]),
        a == Seq::<char>::empty() || a == seq![' '],
        b == Seq::<char>::empty() || b == seq![' '],
    ensures
        spec_trim(a + x + b) == x,
{
    let d = a + x + b;
    let xb = x + b;
    assert(xb[0] == x[0]);
    assert(crate::strutil::spec_trim_start(xb) == xb);
    if a.len() == 0 {
        assert(d =~= xb);
        assert(crate::strutil::spec_trim_start(d) == xb);
    } else {
        assert(d.len() > 0);
        assert(d[0] == ' ');
        assert(d.drop_first() =~= xb);
        assert(crate::strutil::spec_trim_start(d) == crate::strutil::spec_trim_start(
            d.drop_first(),
        ));
        assert(crate::strutil::spec_trim_start(d) == xb);
    }
    if b.len() == 0 {
        assert(xb =~= x);
        assert(x[x.len() - 1] == xb[xb.len() - 1]);
        assert(crate::strutil::spec_trim_end(xb) == xb);
    } else {
        assert(xb[xb.len() - 1] == ' ');
        assert(xb.drop_last() =~= x);
        assert(crate::strutil::spec_trim_end(xb) == crate::strutil::spec_trim_end(
            xb.drop_last(),
        ));
        assert(crate::strutil::spec_trim_end(x) == x);
    }
    assert(spec_trim(d) == x);
}

/// Splitting the rendered alternative recovers every requirement in order.
proof fn lemma_ranges_of_join(qs: Seq<semver::VersionReq>, pre: Seq<char>)
    requires
        qs.len() >= 1,
        forall|i: int|
            0 <= i < qs.len() ==> spec_req_parse(spec_req_str(#[trigger] qs[i])) == Some(qs[i])
                && req_str_chars(spec_req_str(qs[i])),
        pre == Seq::<char>::empty() || pre == seq![' '],
    ensures
        spec_parse_ranges(spec_split_pipes_rec(spec_join_reqs(qs), pre)) == Ok::<
            Seq<semver::VersionReq>,
            (),
        >(qs),
    decreases qs.len(),
{
    let j = spec_join_reqs(qs);
    let s0 = spec_req_str(qs[0]);
    assert(!seq_has(s0, '|'));
    if qs.len() == 1 {
        lemma_split_plain(s0, Seq::empty(), pre);
        assert(j =~= s0 + Seq::<char>::empty());
        assert(spec_split_pipes_rec(j, pre) == spec_split_pipes_rec(
            Seq::<char>::empty(),
            pre + s0,
        ));
        assert(spec_split_pipes_rec(Seq::<char>::empty(), pre + s0) == seq![pre + s0]);
        lemma_trim_pad(s0, pre, Seq::empty());
        assert(pre + s0 =~= pre + s0 + Seq::<char>::empty());
        let parts = seq![pre + s0];
        assert(spec_trim(parts[0]) == s0);
        assert(parts.drop_first() =~= Seq::<Seq<char>>::empty());
        assert(spec_parse_ranges(Seq::<Seq<char>>::empty()) == Ok::<Seq<semver::VersionReq>, ()>(
            Seq::empty(),
        ));
        assert(seq![qs[0]] + Seq::<semver::VersionReq>::empty() =~= qs);
        assert(spec_parse_ranges(parts) == Ok::<Seq<semver::VersionReq>, ()>(qs));
    } else {
        let sep = seq![' ', '|', '|', ' '];
        let rest = qs.drop_first();
        assert(j == s0 + sep + spec_join_reqs(rest));
        let head = s0 + seq![' '];
        let tail = seq![' '] + spec_join_reqs(rest);
        assert(j =~= head + (seq!['|', '|'] + tail));
        assert(!seq_has(head, '|')) by {
            if seq_has(head, '|') {
                let y = choose|y: int| 0 <= y < head.len() && head[y] == '|';
                if y < s0.len() {
                    assert(s0[y] == '|');
                } else {
                    assert(head[y] == ' ');
                }
            }
        }
        lemma_split_plain(head, seq!['|', '|'] + tail, pre);
        let mid = seq!['|', '|'] + tail;
        assert(mid[0] == '|' && mid[1] == '|');
        assert(mid.skip(2) =~= tail);
        assert(spec_split_pipes_rec(mid, pre + head) == seq![pre + head]
            + spec_split_pipes_rec(tail, Seq::empty()));
        assert(tail =~= seq![' '] + spec_join_reqs(rest));
        lemma_split_plain(seq![' '], spec_join_reqs(rest), Seq::empty());
        assert(Seq::<char>::empty() + seq![' '] =~= seq![' ']);
        assert(forall|i: int|
            0 <= i < rest.len() ==> spec_req_parse(spec_req_str(#[trigger] rest[i])) == Some(
                rest[i],
            ) && req_str_chars(spec_req_str(rest[i]))) by {
            assert(forall|i: int| 0 <= i < rest.len() ==> rest[i] == qs[i + 1]);
        }
        lemma_ranges_of_join(rest, seq![' ']);
        let parts = spec_split_pipes_rec(j, pre);
        assert(parts == seq![pre + head] + spec_split_pipes_rec(
            spec_join_reqs(rest),
            seq![' '],
        ));
        let tailparts = spec_split_pipes_rec(spec_join_reqs(rest), seq![' ']);
        assert(parts.len() >= 1);
        assert(parts[0] == pre + head);
        lemma_trim_pad(s0, pre, seq![' ']);
        assert(pre + head =~= pre + s0 + seq![' ']);
        assert(spec_trim(parts[0]) == s0);
        assert(parts.drop_first() =~= tailparts);
        assert(seq![qs[0]] + rest =~= qs);
        assert(spec_parse_ranges(parts) == Ok::<Seq<semver::VersionReq>, ()>(qs));
    }
}

/// No character outside each requirement's text, `|` and the blank occurs in
/// the rendered alternative.
proof fn lemma_join_free_of(qs: Seq<semver::VersionReq>, c: char)
    requires
        c != ' ',
        c != '|',
        forall|i: int| 0 <= i < qs.len() ==> !seq_has(spec_req_str(#[trigger] qs[i]), c),
    ensures
        !seq_has(spec_join_reqs(qs), c),
    decreases qs.len(),
{
    if qs.len() == 0 {
    } else if qs.len() == 1 {
        assert(spec_join_reqs(qs) == spec_req_str(qs[0]));
    } else {
        let rest = qs.drop_first();
        assert(forall|i: int|
            0 <= i < rest.len() ==> !seq_has(spec_req_str(#[trigger] rest[i]), c)) by {
            assert(forall|i: int| 0 <= i < rest.len() ==> rest[i] == qs[i + 1]);
        }
        lemma_join_free_of(rest, c);
        let j = spec_join_reqs(qs);
        let s0 = spec_req_str(qs[0]);
        let sep = seq![' ', '|', '|', ' '];
        if seq_has(j, c) {
            let y = choose|y: int| 0 <= y < j.len() && j[y] == c;
            if y < s0.len() {
                assert(s0[y] == c);
            } else if y < s0.len() + 4 {
                assert(sep[y - s0.len()] == c);
            } else {
                assert(spec_join_reqs(rest)[y - s0.len() - 4] == c);
            }
        }
    }
}

/// A text with a `||` pair splits into at least two parts.
proof fn lemma_split_pipes_count(s: Seq<char>)
    requires
        seq_has_pair(s, '|'),
    ensures
        spec_split_pipes(s).len() >= 2,
{
    lemma_split_pipes_count_rec(s, Seq::empty());
}

proof fn lemma_split_pipes_count_rec(s: Seq<char>, acc: Seq<char>)
    requires
        seq_has_pair(s, '|'),
    ensures
        spec_split_pipes_rec(s, acc).len() >= 2,
    decreases s.len(),
{
    if s.len() >= 2 && s[0] == '|' && s[1] == '|' {
        lemma_split_pipes_len_ge1(s.skip(2), Seq::empty());
    } else {
        let i = choose|i: int| 0 <= i && i + 1 < s.len() && #[trigger] s[i] == '|' && s[i + 1] == '|';
        assert(s.skip(1)[i - 1] == '|' && s.skip(1)[i] == '|');
        lemma_split_pipes_count_rec(s.skip(1), acc.push(s[0]));
    }
}

/// The protocol names told apart where lengths alone do not do it.
proof fn lemma_lits_distinct()
    ensures
        lit_file() != lit_http(),
        lit_file() != lit_https(),
        !is_git_proto(lit_file()),
        lit_link() != lit_http(),
        lit_link() != lit_https(),
        !is_git_proto(lit_link()),
        lit_link() != lit_file(),
        lit_portal() != lit_http(),
        lit_portal() != lit_https(),
        !is_git_proto(lit_portal()),
        lit_portal() != lit_file(),
        lit_portal() != lit_link(),
        lit_workspace() != lit_http(),
        lit_workspace() != lit_https(),
        !is_git_proto(lit_workspace()),
        lit_workspace() != lit_file(),
        lit_workspace() != lit_link(),
        lit_workspace() != lit_portal(),
        lit_http() != lit_git(),
        lit_https() != lit_git(),
        !is_git_proto(lit_http()),
        !is_git_proto(lit_https()),
{
    assert(lit_file()[0] == 'f' && lit_http()[0] == 'h' && lit_https()[0] == 'h' && lit_link()[0]
        == 'l' && lit_portal()[0] == 'p' && lit_workspace()[0] == 'w' && lit_git()[0] == 'g'
        && lit_git_ssh()[0] == 'g' && lit_git_http()[0] == 'g' && lit_git_https()[0] == 'g'
        && lit_git_file()[0] == 'g');
    assert(lit_http()[1] == 't' && lit_https()[1] == 't' && lit_git()[1] == 'i');
}

/// Law: a protocol value that parsing returned re-parses from its own
/// rendering.  Left out are a `Requirement` or `Range` member whose canonical
/// requirement text holds a hyphen (the re-parse would read it as a hyphen
/// range), and a workspace `File` path with an `@` past its first character
/// (the re-parse would read an alias prefix).
pub proof fn lemma_vp_round_trip(v: VpView)
    requires
        vp_wf(v),
        v matches VpView::Requirement(q) ==> !seq_has(spec_req_str(q), '-'),
        v matches VpView::Workspace(w) ==> (w matches WsView::File(p) ==> !crate::strutil::seq_has_from(
            p,
            '@',
            1,
        )),
    ensures
        spec_vp_parse(spec_vp_str(v)) == Ok::<VpView, VpErrKind>(v),
{
    let d = spec_vp_str(v);
    lemma_lits_distinct();
    match v {
        VpView::Url(u) => {
            assert(d == u);
            assert(d.len() >= 2) by {
                lemma_proto_end(d, 0);
            }
            assert(d != star_seq()) by {
                if d == star_seq() {
                    lemma_proto_end(d, 0);
                    assert(spec_proto_end(d, 0) >= 1);
                    assert(is_proto_char(d[0]));
                }
            }
        }
        VpView::Git { reference, url } => {
            let k = spec_proto_end(url, 0);
            lemma_proto_end(url, 0);
            assert(url[k] == ':');
            assert(forall|j: int| 0 <= j < url.len() ==> d[j] == url[j]);
            lemma_proto_end_at(d, 0, k);
            assert(spec_proto_name(d) =~= spec_proto_name(url));
            assert(d != star_seq()) by {
                if d == star_seq() {
                    assert(is_proto_char(d[0]));
                }
            }
            match reference {
                None => {
                    assert(d =~= url);
                    lemma_spec_find_from(d, '#', 0);
                    if spec_find_from(d, '#', 0) != -1 {
                        let x = spec_find_from(d, '#', 0);
                        assert(seq_has(url, '#'));
                    }
                }
                Some(c) => {
                    assert(d[url.len() as int] == '#');
                    assert(forall|j: int|
                        0 <= j < url.len() ==> #[trigger] d[j] == url[j] && d[j] != '#') by {
                        assert(forall|j: int|
                            0 <= j < url.len() ==> !(seq_has(url, '#')) ==> url[j] != '#');
                    }
                    lemma_find_first_at(d, '#', 0, url.len() as int);
                    assert(d.subrange(0, url.len() as int) =~= url);
                    assert(d.subrange(url.len() as int + 1, d.len() as int) =~= c);
                }
            }
        }
        VpView::File(p) => {
            lemma_proto_prefix(lit_file(), p);
            assert(d != star_seq()) by {
                if d == star_seq() {
                    assert(is_proto_char(d[0]));
                }
            }
        }
        VpView::Link(p) => {
            lemma_proto_prefix(lit_link(), p);
            assert(d != star_seq()) by {
                if d == star_seq() {
                    assert(is_proto_char(d[0]));
                }
            }
        }
        VpView::Portal(p) => {
            lemma_proto_prefix(lit_portal(), p);
            assert(d != star_seq()) by {
                if d == star_seq() {
                    assert(is_proto_char(d[0]));
                }
            }
        }
        VpView::Workspace(w) => {
            lemma_proto_prefix(lit_workspace(), spec_ws_str(w));
            assert(d != star_seq()) by {
                if d == star_seq() {
                    assert(is_proto_char(d[0]));
                }
            }
            crate::workspace::lemma_ws_round_trip(w);
        }
        VpView::GitHub { reference, owner, repo } => {
            let head0 = owner + seq!['/'] + repo;
            assert(d[0] == owner[0]);
            assert(is_gh_name_char(owner[0]));
            assert(d.len() > 0);
            assert(d != star_seq()) by {
                if d == star_seq() {
                    assert(d[0] == '*');
                }
            }
            assert(!seq_has(d, ':')) by {
                if seq_has(d, ':') {
                    let y = choose|y: int| 0 <= y < d.len() && d[y] == ':';
                    gh_char_region(owner, repo, reference, y);
                }
            }
            lemma_no_colon_no_proto(d);
            match reference {
                None => {
                    assert(d =~= head0);
                    assert(!seq_has(d, '#')) by {
                        if seq_has(d, '#') {
                            let y = choose|y: int| 0 <= y < d.len() && d[y] == '#';
                            gh_char_region(owner, repo, reference, y);
                        }
                    }
                    lemma_spec_find_from(d, '#', 0);
                    if spec_find_from(d, '#', 0) != -1 {
                        let x = spec_find_from(d, '#', 0);
                        assert(seq_has(d, '#'));
                    }
                    assert(spec_find_from(d, '#', 0) == -1);
                    assert(d[owner.len() as int] == '/');
                    assert(forall|j: int| 0 <= j < owner.len() ==> #[trigger] d[j] == owner[j]);
                    lemma_find_first_at(d, '/', 0, owner.len() as int);
                    assert(d.subrange(0, owner.len() as int) =~= owner);
                    assert(d.subrange(owner.len() as int + 1, d.len() as int) =~= repo);
                    assert(spec_github(d) == Some(
                        GhView { owner, repo, reference: Option::<Seq<char>>::None },
                    ));
                }
                Some(c) => {
                    let hp = head0.len() as int;
                    assert(d =~= head0 + seq!['#'] + c);
                    assert(d[hp] == '#');
                    assert(forall|j: int|
                        0 <= j < hp ==> #[trigger] d[j] == head0[j] && d[j] != '#') by {
                        assert(forall|j: int| 0 <= j < owner.len() ==> head0[j] == owner[j]);
                        assert(head0[owner.len() as int] == '/');
                        assert(forall|j: int|
                            owner.len() + 1 <= j < head0.len() ==> head0[j] == repo[j - owner.len()
                                - 1]);
                    }
                    lemma_find_first_at(d, '#', 0, hp);
                    let head = d.subrange(0, hp);
                    assert(head =~= head0);
                    assert(head[owner.len() as int] == '/');
                    assert(forall|j: int| 0 <= j < owner.len() ==> #[trigger] head[j] == owner[j]);
                    lemma_find_first_at(head, '/', 0, owner.len() as int);
                    assert(head.subrange(0, owner.len() as int) =~= owner);
                    assert(head.subrange(owner.len() as int + 1, head.len() as int) =~= repo);
                    assert(d.subrange(hp + 1, d.len() as int) =~= c);
                    assert(spec_github(d) == Some(GhView { owner, repo, reference: Some(c) }));
                }
            }
        }
        VpView::Requirement(q) => {
            let t = spec_req_str(q);
            assert(d == t);
            if t == star_seq() {
            } else {
                assert(d.len() > 0);
                lemma_no_colon_no_proto(d);
                lemma_no_slash_no_github(d);
                assert(!seq_has_pair(d, '|')) by {
                    if seq_has_pair(d, '|') {
                        let y = choose|y: int|
                            0 <= y && y + 1 < d.len() && #[trigger] d[y] == '|' && d[y + 1] == '|';
                        assert(seq_has(d, '|'));
                    }
                }
                assert(seq_has_op(d));
            }
        }
        VpView::Range(qs) => {
            let s0 = spec_req_str(qs[0]);
            assert(req_wf(qs[0]) && !seq_has(s0, '-'));
            assert(d == s0 + seq![' ', '|', '|', ' '] + spec_join_reqs(qs.drop_first()));
            assert(d[s0.len() as int + 1] == '|' && d[s0.len() as int + 2] == '|');
            assert(seq_has_pair(d, '|'));
            assert(d.len() > 1);
            assert(d != star_seq());
            assert(forall|i: int| 0 <= i < qs.len() ==> !seq_has(spec_req_str(#[trigger] qs[i]), ':'));
            lemma_join_free_of(qs, ':');
            lemma_no_colon_no_proto(d);
            assert(forall|i: int| 0 <= i < qs.len() ==> !seq_has(spec_req_str(#[trigger] qs[i]), '/'));
            lemma_join_free_of(qs, '/');
            lemma_no_slash_no_github(d);
            lemma_join_free_of(qs, '-');
            lemma_ranges_of_join(qs, Seq::empty());
            assert(spec_split_pipes_rec(d, Seq::empty()) == spec_split_pipes(d));
        }
        VpView::Version(ver) => {
            let t = spec_version_str(ver);
            assert(d == t);
            assert(d.len() > 0);
            assert(d != star_seq()) by {
                if d == star_seq() {
                    assert(d[0] == '*');
                    assert(crate::semver_api::is_ascii_digit('*') == false);
                }
            }
            assert(!seq_has(d, ':')) by {
                if seq_has(d, ':') {
                    let y = choose|y: int| 0 <= y < d.len() && d[y] == ':';
                }
            }
            lemma_no_colon_no_proto(d);
            assert(!seq_has(d, '/')) by {
                if seq_has(d, '/') {
                    let y = choose|y: int| 0 <= y < d.len() && d[y] == '/';
                }
            }
            lemma_no_slash_no_github(d);
            assert(!seq_has_pair(d, '|')) by {
                if seq_has_pair(d, '|') {
                    let y = choose|y: int|
                        0 <= y && y + 1 < d.len() && #[trigger] d[y] == '|' && d[y + 1] == '|';
                }
            }
            assert(!seq_has_op(d)) by {
                if seq_has_op(d) {
                    let y = choose|y: int| 0 <= y < d.len() && is_op_char(d[y]);
                }
            }
        }
    }
}

/// Which character stands at a position of a rendered github shorthand.
proof fn gh_char_region(owner: Seq<char>, repo: Seq<char>, reference: Option<Seq<char>>, y: int)
    requires
        all_gh_name(owner),
        all_gh_name(repo),
        match reference {
            Some(c) => all_gh_ref(c),
            None => true,
        },
        0 <= y < (owner + seq!['/'] + repo + spec_opt_ref(reference)).len(),
    ensures
        ({
            let d = owner + seq!['/'] + repo + spec_opt_ref(reference);
            is_gh_ref_char(d[y]) || d[y] == '#'
        }),
{
    let d = owner + seq!['/'] + repo + spec_opt_ref(reference);
    if y < owner.len() {
        assert(d[y] == owner[y]);
    } else if y == owner.len() {
        assert(d[y] == '/');
    } else if y < owner.len() + 1 + repo.len() {
        assert(d[y] == repo[y - owner.len() - 1]);
    } else {
        match reference {
            Some(c) => {
                if y == owner.len() + 1 + repo.len() {
                    assert(d[y] == '#');
                } else {
                    assert(d[y] == c[y - owner.len() - repo.len() - 2]);
                }
            }
            None => {
                assert(false);
            }
        }
    }
}

proof fn lemma_split_pipes_len_ge1(s: Seq<char>, acc: Seq<char>)
    ensures
        spec_split_pipes_rec(s, acc).len() >= 1,
    decreases s.len(),
{
    if s.len() >= 2 && s[0] == '|' && s[1] == '|' {
    } else if s.len() == 0 {
    } else {
        lemma_split_pipes_len_ge1(s.skip(1), acc.push(s[0]));
    }
}

} // verus!
