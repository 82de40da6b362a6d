use vstd::prelude::*;

use crate::semver_api::{
    spec_version_parse, spec_version_str, version_parse, version_str_chars, version_to_string,
};
use crate::strutil::{
    append_vec, find_from, lemma_find_first_at, lemma_spec_find_from, seq_has, seq_has_from,
    spec_find_from, string_of, subvec,
};
use crate::to_chars;

verus! {

// ---------------------------------------------------------------------------
// The `workspace:` protocol of pnpm and yarn: an optional `<alias>@` prefix,
// then `*`, `^`/`~` with an optional version, a path, or a plain version.
// ---------------------------------------------------------------------------

#[derive(PartialEq, Eq, Debug)]
pub enum WorkspaceProtocolError {
    /// `*` does not take a version suffix.
    StarNoVersion,
    /// The version part did not parse; the payload carries semver's message.
    Semver(String),
}

/// The error cases, without their messages.
pub enum WsErrKind {
    StarNoVersion,
    Semver,
}

impl View for WorkspaceProtocolError {
    type V = WsErrKind;

    open spec fn view(&self) -> WsErrKind {
        match self {
            WorkspaceProtocolError::StarNoVersion => WsErrKind::StarNoVersion,
            WorkspaceProtocolError::Semver(_) => WsErrKind::Semver,
        }
    }
}

#[derive(PartialEq, Eq, Debug)]
pub enum WorkspaceProtocol {
    Any { alias: Option<String> },
    Tilde { alias: Option<String>, version: Option<semver::Version> },
    Caret { alias: Option<String>, version: Option<semver::Version> },
    File(String),
    Version(semver::Version),
}

/// The mathematical shape of a `WorkspaceProtocol` value.
pub enum WsView {
    Any { alias: Option<Seq<char>> },
    Tilde { alias: Option<Seq<char>>, version: Option<semver::Version> },
    Caret { alias: Option<Seq<char>>, version: Option<semver::Version> },
    File(Seq<char>),
    Version(semver::Version),
}

pub open spec fn view_alias(a: &Option<String>) -> Option<Seq<char>> {
    match a {
        Some(x) => Some(x@),
        None => None,
    }
}

impl View for WorkspaceProtocol {
    type V = WsView;

    open spec fn view(&self) -> WsView {
        match self {
            WorkspaceProtocol::Any { alias } => WsView::Any { alias: view_alias(alias) },
            WorkspaceProtocol::Tilde { alias, version } => WsView::Tilde {
                alias: view_alias(alias),
                version: *version,
            },
            WorkspaceProtocol::Caret { alias, version } => WsView::Caret {
                alias: view_alias(alias),
                version: *version,
            },
            WorkspaceProtocol::File(p) => WsView::File(p@),
            WorkspaceProtocol::Version(v) => WsView::Version(*v),
        }
    }
}

// ---------------------------------------------------------------------------
// Parsing, as a spec-level function first.
// ---------------------------------------------------------------------------

/// Split an optional `<alias>@` prefix off `s`.  The separator is the first
/// `@` at position 1 or later; an `@` in the very first position belongs to
/// the value.
pub open spec fn spec_split_alias(s: Seq<char>) -> (Option<Seq<char>>, Seq<char>) {
    let i = spec_find_from(s, '@', 1);
    if i == -1 {
        (None, s)
    } else {
        (Some(s.subrange(0, i)), s.subrange(i + 1, s.len() as int))
    }
}

/// What parsing a workspace protocol text yields.
pub open spec fn spec_ws_parse(s: Seq<char>) -> Result<WsView, WsErrKind> {
    let (alias, v) = spec_split_alias(s);
    if v.len() > 0 && v[0] == '*' {
        if v.len() != 1 {
            Err(WsErrKind::StarNoVersion)
        } else {
            Ok(WsView::Any { alias })
        }
    } else if v.len() > 0 && (v[0] == '^' || v[0] == '~') {
        if v.len() == 1 {
            if v[0] == '^' {
                Ok(WsView::Caret { alias, version: None })
            } else {
                Ok(WsView::Tilde { alias, version: None })
            }
        } else {
            match spec_version_parse(v.subrange(1, v.len() as int)) {
                Some(ver) => if v[0] == '^' {
                    Ok(WsView::Caret { alias, version: Some(ver) })
                } else {
                    Ok(WsView::Tilde { alias, version: Some(ver) })
                },
                None => Err(WsErrKind::Semver),
            }
        }
    } else if v.len() > 0 && (v[0] == '.' || v[0] == '/') {
        Ok(WsView::File(v))
    } else {
        match spec_version_parse(v) {
            Some(ver) => Ok(WsView::Version(ver)),
            None => Err(WsErrKind::Semver),
        }
    }
}

// ---------------------------------------------------------------------------
// Rendering, as a spec-level function first.
// ---------------------------------------------------------------------------

pub open spec fn spec_alias_prefix(a: Option<Seq<char>>) -> Seq<char> {
    match a {
        Some(x) => x + seq!['@'],
        None => Seq::empty(),
    }
}

pub open spec fn spec_opt_version_str(v: Option<semver::Version>) -> Seq<char> {
    match v {
        Some(x) => spec_version_str(x),
        None => Seq::empty(),
    }
}

/// What rendering a workspace protocol yields.  The `workspace:` prefix is
/// not part of this text; `VersionProtocol` adds it.
pub open spec fn spec_ws_str(w: WsView) -> Seq<char> {
    match w {
        WsView::Any { alias } => spec_alias_prefix(alias) + seq!['*'],
        WsView::Tilde { alias, version } => spec_alias_prefix(alias) + seq!['~']
            + spec_opt_version_str(version),
        WsView::Caret { alias, version } => spec_alias_prefix(alias) + seq!['^']
            + spec_opt_version_str(version),
        WsView::File(p) => p,
        WsView::Version(v) => spec_version_str(v),
    }
}

// ---------------------------------------------------------------------------
// What parsing guarantees of the value it returns.
// ---------------------------------------------------------------------------

pub open spec fn alias_wf(a: Option<Seq<char>>) -> bool {
    match a {
        Some(x) => x.len() >= 1 && !seq_has_from(x, '@', 1),
        None => true,
    }
}

pub open spec fn version_wf(v: semver::Version) -> bool {
    &&& spec_version_parse(spec_version_str(v)) == Some(v)
    &&& version_str_chars(spec_version_str(v))
}

pub open spec fn opt_version_wf(v: Option<semver::Version>) -> bool {
    match v {
        Some(x) => version_wf(x),
        None => true,
    }
}

/// Every value that `WorkspaceProtocol::parse` returns satisfies this.
pub open spec fn ws_wf(w: WsView) -> bool {
    match w {
        WsView::Any { alias } => alias_wf(alias),
        WsView::Tilde { alias, version } => alias_wf(alias) && opt_version_wf(version),
        WsView::Caret { alias, version } => alias_wf(alias) && opt_version_wf(version),
        WsView::File(p) => p.len() >= 1 && (p[0] == '.' || p[0] == '/'),
        WsView::Version(v) => version_wf(v) && !(spec_version_str(v)[0] == '.'
            || spec_version_str(v)[0] == '/' || spec_version_str(v)[0] == '*'
            || spec_version_str(v)[0] == '^' || spec_version_str(v)[0] == '~'),
    }
}

impl WorkspaceProtocol {
    /// Parse the text after `workspace:`.
    pub fn parse(s: &str) -> (r: Result<WorkspaceProtocol, WorkspaceProtocolError>)
        ensures
            match (r, spec_ws_parse(s@)) {
                (Ok(w), Ok(sw)) => w@ == sw && ws_wf(sw),
                (Err(e), Err(k)) => e@ == k,
                _ => false,
            },
    {
        let chars = to_chars(s);
        let ghost (galias, gvalue) = spec_split_alias(s@);
        let (alias, value): (Option<String>, Vec<char>) = if chars.len() >= 1 {
            match find_from(&chars, '@', 1) {
                Some(i) => {
                    proof {
                        lemma_spec_find_from(s@, '@', 1);
                        assert(spec_find_from(s@, '@', 1) == i);
                    }
                    let a = subvec(&chars, 0, i);
                    let v = subvec(&chars, i + 1, chars.len());
                    (Some(string_of(&a)), v)
                }
                None => {
                    proof {
                        lemma_spec_find_from(s@, '@', 1);
                        assert(spec_find_from(s@, '@', 1) == -1);
                        assert(s@.subrange(0, s@.len() as int) =~= s@);
                    }
                    (None, subvec(&chars, 0, chars.len()))
                }
            }
        } else {
            proof {
                assert(s@.subrange(0, s@.len() as int) =~= s@);
            }
            (None, subvec(&chars, 0, chars.len()))
        };
        proof {
            assert(view_alias(&alias) == galias);
            assert(value@ == gvalue);
        }
        if value.len() > 0 && value[0] == '*' {
            if value.len() != 1 {
                Err(WorkspaceProtocolError::StarNoVersion)
            } else {
                Ok(WorkspaceProtocol::Any { alias })
            }
        } else if value.len() > 0 && (value[0] == '^' || value[0] == '~') {
            let caret = value[0] == '^';
            if value.len() == 1 {
                if caret {
                    Ok(WorkspaceProtocol::Caret { alias, version: None })
                } else {
                    Ok(WorkspaceProtocol::Tilde { alias, version: None })
                }
            } else {
                let rest = subvec(&value, 1, value.len());
                let rest_s = string_of(&rest);
                match version_parse(rest_s.as_str()) {
                    Ok(ver) => if caret {
                        Ok(WorkspaceProtocol::Caret { alias, version: Some(ver) })
                    } else {
                        Ok(WorkspaceProtocol::Tilde { alias, version: Some(ver) })
                    },
                    Err(m) => Err(WorkspaceProtocolError::Semver(m)),
                }
            }
        } else if value.len() > 0 && (value[0] == '.' || value[0] == '/') {
            Ok(WorkspaceProtocol::File(string_of(&value)))
        } else {
            let value_s = string_of(&value);
            match version_parse(value_s.as_str()) {
                Ok(ver) => Ok(WorkspaceProtocol::Version(ver)),
                Err(m) => Err(WorkspaceProtocolError::Semver(m)),
            }
        }
    }

    /// Render the canonical text of the protocol, without the `workspace:`
    /// prefix.
    pub fn format(&self) -> (r: String)
        ensures
            r@ == spec_ws_str(self@),
    {
        let mut out: Vec<char> = Vec::new();
        match self {
            WorkspaceProtocol::Any { alias } => {
                push_alias(&mut out, alias);
                out.push('*');
            }
            WorkspaceProtocol::Tilde { alias, version } => {
                push_alias(&mut out, alias);
                out.push('~');
                push_opt_version(&mut out, version);
            }
            WorkspaceProtocol::Caret { alias, version } => {
                push_alias(&mut out, alias);
                out.push('^');
                push_opt_version(&mut out, version);
            }
            WorkspaceProtocol::File(p) => {
                let pc = to_chars(p.as_str());
                append_vec(&mut out, &pc);
            }
            WorkspaceProtocol::Version(v) => {
                let vs = version_to_string(v);
                let vc = to_chars(vs.as_str());
                append_vec(&mut out, &vc);
            }
        }
        string_of(&out)
    }
}

/// The alias split of a rendered protocol recovers the alias: the separator
/// is the `@` right after the alias, since neither the alias past its first
/// character nor the rendered tail holds one.
proof fn lemma_split_alias_of_render(a: Option<Seq<char>>, tail: Seq<char>)
    requires
        alias_wf(a),
        !seq_has(tail, '@'),
    ensures
        spec_split_alias(spec_alias_prefix(a) + tail) == (a, tail),
{
    let d = spec_alias_prefix(a) + tail;
    match a {
        Some(x) => {
            assert(d[x.len() as int] == '@');
            assert forall|j: int| 1 <= j < x.len() implies d[j] != '@' by {
                assert(d[j] == x[j]);
            }
            lemma_find_first_at(d, '@', 1, x.len() as int);
            assert(d.subrange(0, x.len() as int) =~= x);
            assert(d.subrange(x.len() as int + 1, d.len() as int) =~= tail);
        }
        None => {
            assert(d =~= tail);
            if d.len() >= 1 {
                lemma_spec_find_from(d, '@', 1);
                if spec_find_from(d, '@', 1) != -1 {
                    let i = spec_find_from(d, '@', 1);
                    assert(seq_has(tail, '@'));
                }
            }
            assert(d.subrange(0, d.len() as int) =~= d);
        }
    }
}

/// Law: a successfully parsed workspace protocol re-parses from its own
/// rendering.  A `File` path holding an `@` past its first character renders
/// to a text whose alias split falls inside the path, so those values are
/// left out.
pub proof fn lemma_ws_round_trip(w: WsView)
    requires
        ws_wf(w),
        w matches WsView::File(p) ==> !seq_has_from(p, '@', 1),
    ensures
        spec_ws_parse(spec_ws_str(w)) == Ok::<WsView, WsErrKind>(w),
{
    let d = spec_ws_str(w);
    match w {
        WsView::Any { alias } => {
            lemma_split_alias_of_render(alias, seq!['*']);
        }
        WsView::Tilde { alias, version } => {
            let tail = seq!['~'] + spec_opt_version_str(version);
            assert(d =~= spec_alias_prefix(alias) + tail);
            assert(!seq_has(tail, '@')) by {
                if seq_has(tail, '@') {
                    let i = choose|i: int| 0 <= i < tail.len() && tail[i] == '@';
                    assert(spec_opt_version_str(version)[i - 1] == '@');
                }
            }
            lemma_split_alias_of_render(alias, tail);
            if version is Some {
                assert(tail.subrange(1, tail.len() as int) =~= spec_version_str(
                    version.unwrap(),
                ));
            }
        }
        WsView::Caret { alias, version } => {
            let tail = seq!['^'] + spec_opt_version_str(version);
            assert(d =~= spec_alias_prefix(alias) + tail);
            assert(!seq_has(tail, '@')) by {
                if seq_has(tail, '@') {
                    let i = choose|i: int| 0 <= i < tail.len() && tail[i] == '@';
                    assert(spec_opt_version_str(version)[i - 1] == '@');
                }
            }
            lemma_split_alias_of_render(alias, tail);
            if version is Some {
                assert(tail.subrange(1, tail.len() as int) =~= spec_version_str(
                    version.unwrap(),
                ));
            }
        }
        WsView::File(p) => {
            lemma_spec_find_from(d, '@', 1);
            if spec_find_from(d, '@', 1) != -1 {
                let i = spec_find_from(d, '@', 1);
                assert(seq_has_from(p, '@', 1));
            }
            assert(d.subrange(0, d.len() as int) =~= d);
        }
        WsView::Version(v) => {
            lemma_spec_find_from(d, '@', 1);
            if spec_find_from(d, '@', 1) != -1 {
                let i = spec_find_from(d, '@', 1);
                assert(false);
            }
            assert(d.subrange(0, d.len() as int) =~= d);
        }
    }
}

fn push_alias(out: &mut Vec<char>, alias: &Option<String>)
    ensures
        final(out)@ == old(out)@ + spec_alias_prefix(view_alias(alias)),
{
    match alias {
        Some(a) => {
            let ac = to_chars(a.as_str());
            append_vec(out, &ac);
            out.push('@');
            proof {
                assert(out@ =~= old(out)@ + (a@ + seq!['@']));
            }
        }
        None => {
            proof {
                assert(out@ =~= old(out)@ + Seq::<char>::empty());
            }
        }
    }
}

fn push_opt_version(out: &mut Vec<char>, version: &Option<semver::Version>)
    ensures
        final(out)@ == old(out)@ + spec_opt_version_str(*version),
{
    match version {
        Some(v) => {
            let vs = version_to_string(v);
            let vc = to_chars(vs.as_str());
            append_vec(out, &vc);
        }
        None => {
            proof {
                assert(out@ =~= old(out)@ + Seq::<char>::empty());
            }
        }
    }
}

} // verus!
