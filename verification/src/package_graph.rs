use vstd::prelude::*;

use crate::clean_api::{clean_path_text, spec_clean};
use crate::package_json::{DependenciesMap, PackageJson, WorkspacesField};
use crate::petgraph_api::{
    in_edges_rev, out_edges_rev, pg_add_edge, pg_add_node, pg_edges, pg_edges_in, pg_edges_out,
    pg_new, pg_node_weight, pg_nodes,
};
use crate::semver_api::{req_is_star, req_matches, spec_req_matches, spec_req_parse, spec_req_str,
    spec_version_str, star_seq, version_eq};
use crate::strutil::{append_vec, string_of, vec_eq};
use crate::to_chars;
use crate::version::VersionProtocol;
use crate::workspace::WorkspaceProtocol;

verus! {

// ---------------------------------------------------------------------------
// The package graph: the workspace's packages as nodes, and an edge for
// every declared dependency that a local package actually satisfies.
// ---------------------------------------------------------------------------

#[derive(Clone, Copy, PartialEq, Eq, Structural, Debug)]
pub enum DependencyType {
    Development,
    Production,
    Peer,
    Optional,
}

#[derive(Clone, Copy, PartialEq, Eq, Structural, Debug)]
pub enum PackageManager {
    Bun,
    Npm,
    Pnpm,
    Yarn,
    YarnLegacy,
}

#[derive(PartialEq, Eq, Debug)]
pub enum PackageGraphError {
    /// A workspace package without a `name`, at the given root.
    MissingPackageName(String),
    /// A queried name that no package holds.
    UnknownPackage(String),
}

#[derive(PartialEq, Eq, Debug)]
pub struct Package {
    pub manifest: PackageJson,
    /// Absolute root directory of the package.
    pub root: String,
    /// Load order: the workspace root is `0`, workspace packages follow.
    pub index: u8,
    /// The package's node in the graph; the root is node `0`.
    pub node_index: usize,
}

impl Package {
    pub fn new(root: String, manifest: PackageJson) -> (r: Package)
        ensures
            r.manifest == manifest,
            r.root == root,
            r.index == 0,
            r.node_index == 0,
    {
        Package { manifest, root, index: 0, node_index: 0 }
    }

    /// The package's name, required of every workspace package.
    pub fn get_name(&self) -> (r: Result<String, PackageGraphError>)
        ensures
            match r {
                Ok(n) => self.manifest.name == Some(n),
                Err(e) => self.manifest.name is None && e == PackageGraphError::MissingPackageName(
                    self.root,
                ),
            },
    {
        match &self.manifest.name {
            Some(n) => Ok(n.clone()),
            None => Err(PackageGraphError::MissingPackageName(self.root.clone())),
        }
    }
}

// ---------------------------------------------------------------------------
// Workspace discovery: walk the working directory and its parents and stop
// at the first directory that holds a package manager's marker files.
// ---------------------------------------------------------------------------

/// What a probe of one directory saw on disk.
#[derive(Clone, PartialEq, Eq, Debug)]
pub struct DirProbe {
    pub path: String,
    pub has_bun_lockb: bool,
    pub has_pnpm_lock: bool,
    pub has_pnpm_workspace: bool,
    pub has_yarn_lock: bool,
    pub has_yarn_dir: bool,
    pub has_yarnrc_yml: bool,
    pub has_package_lock: bool,
    pub has_shrinkwrap: bool,
}

/// The manager one directory's markers select, if any.
pub open spec fn spec_probe_manager(d: DirProbe) -> Option<PackageManager> {
    if d.has_bun_lockb {
        Some(PackageManager::Bun)
    } else if d.has_pnpm_lock || d.has_pnpm_workspace {
        Some(PackageManager::Pnpm)
    } else if d.has_yarn_lock {
        if d.has_yarn_dir || d.has_yarnrc_yml {
            Some(PackageManager::Yarn)
        } else {
            Some(PackageManager::YarnLegacy)
        }
    } else if d.has_package_lock || d.has_shrinkwrap {
        Some(PackageManager::Npm)
    } else {
        None
    }
}

pub open spec fn spec_find_root(dirs: Seq<DirProbe>) -> Option<(Seq<char>, PackageManager)>
    decreases dirs.len(),
{
    if dirs.len() == 0 {
        None
    } else {
        match spec_probe_manager(dirs[0]) {
            Some(m) => Some((dirs[0].path@, m)),
            None => spec_find_root(dirs.drop_first()),
        }
    }
}

/// Pick the workspace root: the first directory, from the working directory
/// upward, whose markers select a package manager.
#[verifier::loop_isolation(false)]
pub fn find_package_root(dirs: &Vec<DirProbe>) -> (r: Option<(String, PackageManager)>)
    ensures
        match r {
            Some(p) => spec_find_root(dirs@) == Some((p.0@, p.1)),
            None => spec_find_root(dirs@) is None,
        },
{
    let mut i: usize = 0;
    proof {
        assert(dirs@.skip(0) =~= dirs@);
    }
    while i < dirs.len()
        invariant
            0 <= i <= dirs@.len(),
            spec_find_root(dirs@) == spec_find_root(dirs@.skip(i as int)),
        decreases dirs@.len() - i,
    {
        proof {
            assert(dirs@.skip(i as int)[0] == dirs@[i as int]);
            assert(dirs@.skip(i as int).drop_first() =~= dirs@.skip(i + 1 as int));
        }
        let d = &dirs[i];
        if d.has_bun_lockb {
            return Some((d.path.clone(), PackageManager::Bun));
        }
        if d.has_pnpm_lock || d.has_pnpm_workspace {
            return Some((d.path.clone(), PackageManager::Pnpm));
        }
        if d.has_yarn_lock {
            if d.has_yarn_dir || d.has_yarnrc_yml {
                return Some((d.path.clone(), PackageManager::Yarn));
            }
            return Some((d.path.clone(), PackageManager::YarnLegacy));
        }
        if d.has_package_lock || d.has_shrinkwrap {
            return Some((d.path.clone(), PackageManager::Npm));
        }
        i += 1;
    }
    proof {
        assert(dirs@.skip(dirs@.len() as int) =~= Seq::<DirProbe>::empty());
    }
    None
}

/// The workspace globs: pnpm reads its workspace file's `packages`; the
/// other managers read the root manifest's `workspaces`.
pub open spec fn spec_workspace_globs(
    manager: PackageManager,
    pnpm_packages: Option<Seq<String>>,
    workspaces: Option<WorkspacesField>,
) -> Seq<String> {
    if manager == PackageManager::Pnpm {
        match pnpm_packages {
            Some(ps) => ps,
            None => Seq::empty(),
        }
    } else {
        match workspaces {
            Some(WorkspacesField::Globs(gs)) => gs@,
            Some(WorkspacesField::Config { packages, .. }) => packages@,
            None => Seq::empty(),
        }
    }
}

pub fn workspace_globs(
    manager: PackageManager,
    pnpm_packages: &Option<Vec<String>>,
    workspaces: &Option<WorkspacesField>,
) -> (r: Vec<String>)
    ensures
        r@ == spec_workspace_globs(
            manager,
            match *pnpm_packages {
                Some(ps) => Some(ps@),
                None => None,
            },
            *workspaces,
        ),
{
    let mut out: Vec<String> = Vec::new();
    if let PackageManager::Pnpm = manager {
        match pnpm_packages {
            Some(ps) => {
                let mut i: usize = 0;
                while i < ps.len()
                    invariant
                        0 <= i <= ps@.len(),
                        out@ == ps@.subrange(0, i as int),
                    decreases ps@.len() - i,
                {
                    out.push(ps[i].clone());
                    proof {
                        assert(out@ =~= ps@.subrange(0, i + 1 as int));
                    }
                    i += 1;
                }
                proof {
                    assert(out@ =~= ps@);
                }
            }
            None => {}
        }
        return out;
    }
    match workspaces {
        Some(WorkspacesField::Globs(gs)) => {
            let mut i: usize = 0;
            while i < gs.len()
                invariant
                    0 <= i <= gs@.len(),
                    out@ == gs@.subrange(0, i as int),
                decreases gs@.len() - i,
            {
                out.push(gs[i].clone());
                proof {
                    assert(out@ =~= gs@.subrange(0, i + 1 as int));
                }
                i += 1;
            }
            proof {
                assert(out@ =~= gs@);
            }
        }
        Some(WorkspacesField::Config { packages, .. }) => {
            let mut i: usize = 0;
            while i < packages.len()
                invariant
                    0 <= i <= packages@.len(),
                    out@ == packages@.subrange(0, i as int),
                decreases packages@.len() - i,
            {
                out.push(packages[i].clone());
                proof {
                    assert(out@ =~= packages@.subrange(0, i + 1 as int));
                }
                i += 1;
            }
            proof {
                assert(out@ =~= packages@);
            }
        }
        None => {}
    }
    out
}

// ---------------------------------------------------------------------------
// Loading the workspace packages: one package per directory that holds a
// manifest, keyed and ordered by name, each with its load index.
// ---------------------------------------------------------------------------

/// The pnpm workspace file.
#[derive(PartialEq, Eq, Debug)]
pub struct PnpmWorkspaceYaml {
    pub packages: Vec<String>,
}

pub open spec fn keys_sorted_unique(ps: Seq<(String, Package)>) -> bool {
    forall|i: int, j: int|
        0 <= i < j < ps.len() ==> crate::strutil::seq_le(
            (#[trigger] ps[i]).0@,
            (#[trigger] ps[j]).0@,
        ) && ps[i].0@ != ps[j].0@
}

/// Insert a package under its name, replacing a package of the same name.
pub open spec fn spec_insert_pkg(acc: Seq<(String, Package)>, key: String, p: Package) -> Seq<
    (String, Package),
>
    decreases acc.len(),
{
    if acc.len() == 0 {
        seq![(key, p)]
    } else if acc[0].0@ == key@ {
        seq![(key, p)] + acc.drop_first()
    } else if crate::strutil::seq_le(key@, acc[0].0@) {
        seq![(key, p)] + acc
    } else {
        seq![acc[0]] + spec_insert_pkg(acc.drop_first(), key, p)
    }
}

proof fn lemma_insert_pkg_sorted(acc: Seq<(String, Package)>, key: String, p: Package)
    requires
        keys_sorted_unique(acc),
    ensures
        keys_sorted_unique(spec_insert_pkg(acc, key, p)),
        spec_insert_pkg(acc, key, p).len() <= acc.len() + 1,
        forall|i: int|
            0 <= i < spec_insert_pkg(acc, key, p).len() ==> ((#[trigger] spec_insert_pkg(
                acc,
                key,
                p,
            )[i]) == (key, p) || acc.contains(spec_insert_pkg(acc, key, p)[i])),
    decreases acc.len(),
{
    let out = spec_insert_pkg(acc, key, p);
    crate::strutil::lemma_seq_le_total(key@, if acc.len() > 0 {
        acc[0].0@
    } else {
        key@
    });
    if acc.len() == 0 {
    } else if acc[0].0@ == key@ {
        assert forall|i: int, j: int|
            0 <= i < j < out.len() implies crate::strutil::seq_le(
            (#[trigger] out[i]).0@,
            (#[trigger] out[j]).0@,
        ) && out[i].0@ != out[j].0@ by {
            assert(out[j] == acc[j]);
            if i > 0 {
                assert(out[i] == acc[i]);
            }
        }
        assert forall|i: int| 0 <= i < out.len() implies ((#[trigger] out[i]) == (key, p)
            || acc.contains(out[i])) by {
            if i > 0 {
                assert(out[i] == acc[i]);
            }
        }
    } else if crate::strutil::seq_le(key@, acc[0].0@) {
        assert forall|i: int, j: int|
            0 <= i < j < out.len() implies crate::strutil::seq_le(
            (#[trigger] out[i]).0@,
            (#[trigger] out[j]).0@,
        ) && out[i].0@ != out[j].0@ by {
            assert(out[j] == acc[j - 1]);
            if i > 0 {
                assert(out[i] == acc[i - 1]);
            } else {
                if j >= 2 {
                    crate::snapshot::lemma_seq_le_trans(key@, acc[0].0@, acc[j - 1].0@);
                }
                if key@ == acc[j - 1].0@ {
                    if j >= 2 {
                        crate::snapshot::lemma_seq_le_trans(acc[0].0@, acc[j - 1].0@, acc[0].0@);
                        lemma_seq_le_antisym(key@, acc[0].0@);
                    }
                }
            }
        }
        assert forall|i: int| 0 <= i < out.len() implies ((#[trigger] out[i]) == (key, p)
            || acc.contains(out[i])) by {
            if i > 0 {
                assert(out[i] == acc[i - 1]);
            }
        }
    } else {
        lemma_insert_pkg_sorted(acc.drop_first(), key, p);
        let rest = spec_insert_pkg(acc.drop_first(), key, p);
        assert forall|i: int, j: int|
            0 <= i < j < out.len() implies crate::strutil::seq_le(
            (#[trigger] out[i]).0@,
            (#[trigger] out[j]).0@,
        ) && out[i].0@ != out[j].0@ by {
            if i == 0 {
                assert(out[j] == rest[j - 1]);
                if out[j] == (key, p) {
                    assert(crate::strutil::seq_le(acc[0].0@, key@));
                } else {
                    assert(acc.drop_first().contains(out[j]));
                    let w = choose|w: int|
                        0 <= w < acc.drop_first().len() && acc.drop_first()[w] == out[j];
                    assert(acc[w + 1] == out[j]);
                }
            } else {
                assert(out[i] == rest[i - 1] && out[j] == rest[j - 1]);
            }
        }
        assert forall|i: int| 0 <= i < out.len() implies ((#[trigger] out[i]) == (key, p)
            || acc.contains(out[i])) by {
            if i > 0 {
                assert(out[i] == rest[i - 1]);
                if out[i] != (key, p) {
                    assert(acc.drop_first().contains(out[i]));
                    let w = choose|w: int|
                        0 <= w < acc.drop_first().len() && acc.drop_first()[w] == out[i];
                    assert(acc[w + 1] == out[i]);
                }
            } else {
                assert(out[0] == acc[0]);
            }
        }
    }
}

proof fn lemma_seq_le_antisym(a: Seq<char>, b: Seq<char>)
    requires
        crate::strutil::seq_le(a, b),
        crate::strutil::seq_le(b, a),
    ensures
        a == b,
    decreases a.len(),
{
    if a.len() > 0 {
        assert(b.len() > 0);
        if a[0] == b[0] {
            lemma_seq_le_antisym(a.drop_first(), b.drop_first());
            assert(a =~= seq![a[0]] + a.drop_first());
            assert(b =~= seq![b[0]] + b.drop_first());
        }
    }
}

/// Assemble the workspace packages from the manifests found under the
/// globs, in the sorted directory order the caller walked them.
pub open spec fn spec_assemble(
    dirs: Seq<(String, PackageJson)>,
    idx: int,
    acc: Seq<(String, Package)>,
) -> Result<Seq<(String, Package)>, Seq<char>>
    decreases dirs.len(),
{
    if dirs.len() == 0 {
        Ok(acc)
    } else {
        match dirs[0].1.name {
            None => Err(dirs[0].0@),
            Some(n) => spec_assemble(
                dirs.drop_first(),
                idx + 1,
                spec_insert_pkg(
                    acc,
                    n,
                    Package {
                        manifest: dirs[0].1,
                        root: dirs[0].0,
                        index: idx as u8,
                        node_index: 0,
                    },
                ),
            ),
        }
    }
}

/// Workspace packages keyed and ordered by name, each `name` field agreeing
/// with its key, with load indexes and node indexes in place.
pub open spec fn packages_wf(ps: Seq<(String, Package)>) -> bool {
    &&& ps.len() <= 254
    &&& keys_sorted_unique(ps)
    &&& forall|i: int|
        0 <= i < ps.len() ==> ((#[trigger] ps[i]).1.manifest.name matches Some(n) && n@
            == ps[i].0@)
    &&& forall|i: int| 0 <= i < ps.len() ==> (#[trigger] ps[i]).1.node_index == i + 1
}

/// Where `key` goes in a sorted list: at the first position whose key is
/// not smaller, replacing it when it is the same.
proof fn lemma_insert_at(acc: Seq<(String, Package)>, key: String, p: Package, j: int)
    requires
        keys_sorted_unique(acc),
        0 <= j <= acc.len(),
        forall|k: int| 0 <= k < j ==> !crate::strutil::seq_le(key@, (#[trigger] acc[k]).0@),
        j < acc.len() ==> crate::strutil::seq_le(key@, acc[j].0@),
    ensures
        spec_insert_pkg(acc, key, p) == if j < acc.len() && acc[j].0@ == key@ {
            acc.take(j) + seq![(key, p)] + acc.skip(j + 1)
        } else {
            acc.take(j) + seq![(key, p)] + acc.skip(j)
        },
    decreases acc.len(),
{
    crate::strutil::lemma_seq_le_total(key@, if acc.len() > 0 {
        acc[0].0@
    } else {
        key@
    });
    if acc.len() == 0 {
        assert(spec_insert_pkg(acc, key, p) =~= acc.take(0) + seq![(key, p)] + acc.skip(0));
    } else if j == 0 {
        if acc[0].0@ == key@ {
            assert(spec_insert_pkg(acc, key, p) =~= acc.take(0) + seq![(key, p)] + acc.skip(1));
        } else {
            assert(spec_insert_pkg(acc, key, p) =~= acc.take(0) + seq![(key, p)] + acc.skip(0));
        }
    } else {
        assert(!crate::strutil::seq_le(key@, acc[0].0@));
        assert(acc[0].0@ != key@) by {
            if acc[0].0@ == key@ {
                crate::strutil::lemma_seq_le_total(key@, key@);
            }
        }
        let tail = acc.drop_first();
        assert(keys_sorted_unique(tail)) by {
            assert(forall|a: int, b: int|
                0 <= a < b < tail.len() ==> tail[a] == acc[a + 1] && tail[b] == acc[b + 1]);
        }
        assert(forall|k: int|
            0 <= k < j - 1 ==> (#[trigger] tail[k]) == acc[k + 1]);
        lemma_insert_at(tail, key, p, j - 1);
        if j < acc.len() && acc[j].0@ == key@ {
            assert(tail[j - 1] == acc[j]);
            assert(seq![acc[0]] + (tail.take(j - 1) + seq![(key, p)] + tail.skip(j))
                =~= acc.take(j) + seq![(key, p)] + acc.skip(j + 1));
        } else {
            assert(seq![acc[0]] + (tail.take(j - 1) + seq![(key, p)] + tail.skip(j - 1))
                =~= acc.take(j) + seq![(key, p)] + acc.skip(j));
        }
    }
}

/// Load the workspace packages from the manifests the caller found, handed
/// over in sorted directory order.  Load indexes count from 1 in that
/// order; a repeated name keeps the later directory's package, as a map
/// keyed by name would.  A package without a name is the error.
#[verifier::loop_isolation(false)]
pub fn load_workspace_packages(dirs: Vec<(String, PackageJson)>) -> (r: Result<
    Vec<(String, Package)>,
    PackageGraphError,
>)
    requires
        dirs@.len() <= 254,
    ensures
        match r {
            Ok(ps) => {
                &&& spec_assemble(dirs@, 1, Seq::empty()) matches Ok(raw)
                &&& ps@.len() == raw.len()
                &&& forall|i: int|
                    0 <= i < ps@.len() ==> #[trigger] ps@[i] == (
                        raw[i].0,
                        Package { node_index: (i + 1) as usize, ..raw[i].1 },
                    )
                &&& packages_wf(ps@)
            },
            Err(e) => {
                &&& spec_assemble(dirs@, 1, Seq::empty()) matches Err(p)
                &&& e matches PackageGraphError::MissingPackageName(q) && q@ == p
            },
        },
{
    let mut dirs = dirs;
    let ghost dirs0 = dirs@;
    let mut acc: Vec<(String, Package)> = Vec::new();
    let mut idx: usize = 1;
    proof {
        assert(keys_sorted_unique(acc@));
    }
    while dirs.len() > 0
        invariant
            1 <= idx,
            idx + dirs@.len() <= 255,
            keys_sorted_unique(acc@),
            acc@.len() < idx,
            forall|i: int|
                0 <= i < acc@.len() ==> ((#[trigger] acc@[i]).1.manifest.name matches Some(n)
                    && n@ == acc@[i].0@),
            spec_assemble(dirs@, idx as int, acc@) == spec_assemble(dirs0, 1, Seq::empty()),
        decreases dirs@.len(),
    {
        let ghost pre_dirs = dirs@;
        let (root, manifest) = dirs.remove(0);
        proof {
            assert(pre_dirs.drop_first() =~= dirs@);
        }
        match &manifest.name {
            None => {
                return Err(PackageGraphError::MissingPackageName(root));
            }
            Some(n) => {
                let name = n.clone();
                let pkg = Package { manifest, root, index: idx as u8, node_index: 0 };
                proof {
                    lemma_insert_pkg_sorted(acc@, name, pkg);
                }
                let ghost pre_acc = acc@;
                let nc = to_chars(name.as_str());
                // Find the first position whose key is not smaller.
                let mut j: usize = 0;
                while j < acc.len() && !crate::strutil::chars_le(
                    &nc,
                    &to_chars(acc[j].0.as_str()),
                )
                    invariant
                        0 <= j <= acc@.len(),
                        acc@ == pre_acc,
                        forall|k: int|
                            0 <= k < j ==> !crate::strutil::seq_le(
                                nc@,
                                (#[trigger] pre_acc[k]).0@,
                            ),
                    decreases acc@.len() - j,
                {
                    j += 1;
                }
                proof {
                    lemma_insert_at(pre_acc, name, pkg, j as int);
                }
                if j < acc.len() && vec_eq(&to_chars(acc[j].0.as_str()), &nc) {
                    let _old = acc.remove(j);
                    acc.insert(j, (name, pkg));
                    proof {
                        assert(acc@ =~= pre_acc.take(j as int) + seq![
                            (name, pkg),
                        ] + pre_acc.skip(j + 1 as int));
                        assert(acc@ == spec_insert_pkg(pre_acc, name, pkg));
                    }
                } else {
                    acc.insert(j, (name, pkg));
                    proof {
                        assert(acc@ =~= pre_acc.take(j as int) + seq![
                            (name, pkg),
                        ] + pre_acc.skip(j as int));
                        assert(acc@ == spec_insert_pkg(pre_acc, name, pkg));
                    }
                }
                idx += 1;
                proof {
                    lemma_assemble_unfold(pre_dirs, idx as int - 1, pre_acc);
                }
            }
        }
    }
    proof {
        assert(spec_assemble(dirs@, idx as int, acc@) == Ok::<Seq<(String, Package)>, Seq<char>>(
            acc@,
        ));
    }
    // Hand out node indexes in name order.
    let mut out: Vec<(String, Package)> = Vec::new();
    let ghost raw = acc@;
    let mut i: usize = 0;
    while acc.len() > 0
        invariant
            0 <= i <= raw.len(),
            i + acc@.len() == raw.len(),
            acc@ =~= raw.skip(i as int),
            out@.len() == i,
            forall|k: int|
                0 <= k < i ==> #[trigger] out@[k] == (
                    raw[k].0,
                    Package { node_index: (k + 1) as usize, ..raw[k].1 },
                ),
        decreases acc@.len(),
    {
        let (k, p) = acc.remove(0);
        proof {
            assert(raw.skip(i as int)[0] == raw[i as int]);
            assert(raw.skip(i as int).drop_first() =~= raw.skip(i + 1 as int));
        }
        out.push((k, Package { node_index: i + 1, ..p }));
        i += 1;
    }
    proof {
        assert forall|a: int, b: int|
            0 <= a < b < out@.len() implies crate::strutil::seq_le(
            (#[trigger] out@[a]).0@,
            (#[trigger] out@[b]).0@,
        ) && out@[a].0@ != out@[b].0@ by {
            assert(out@[a].0 == raw[a].0 && out@[b].0 == raw[b].0);
        }
    }
    Ok(out)
}

proof fn lemma_assemble_unfold(dirs: Seq<(String, PackageJson)>, idx: int, acc: Seq<(String, Package)>)
    requires
        dirs.len() > 0,
        dirs[0].1.name is Some,
    ensures
        spec_assemble(dirs, idx, acc) == spec_assemble(
            dirs.drop_first(),
            idx + 1,
            spec_insert_pkg(
                acc,
                dirs[0].1.name.unwrap(),
                Package {
                    manifest: dirs[0].1,
                    root: dirs[0].0,
                    index: idx as u8,
                    node_index: 0,
                },
            ),
        ),
{
}

// ---------------------------------------------------------------------------
// Edge construction: a dependency on a local package makes an edge exactly
// when the declared constraint is satisfied by the local package.
// ---------------------------------------------------------------------------

/// First package with the given name, `-1` if there is none.
pub open spec fn spec_pkg_lookup(ps: Seq<(String, Package)>, name: Seq<char>) -> int {
    spec_pkg_lookup_from(ps, name, 0)
}

pub open spec fn spec_pkg_lookup_from(ps: Seq<(String, Package)>, name: Seq<char>, i: int) -> int
    decreases ps.len() - i,
{
    if i < 0 || i >= ps.len() {
        -1
    } else if ps[i].0@ == name {
        i
    } else {
        spec_pkg_lookup_from(ps, name, i + 1)
    }
}

proof fn lemma_pkg_lookup(ps: Seq<(String, Package)>, name: Seq<char>, i: int)
    requires
        0 <= i <= ps.len(),
    ensures
        spec_pkg_lookup_from(ps, name, i) == -1 ==> forall|k: int|
            i <= k < ps.len() ==> (#[trigger] ps[k]).0@ != name,
        spec_pkg_lookup_from(ps, name, i) != -1 ==> {
            let f = spec_pkg_lookup_from(ps, name, i);
            i <= f < ps.len() && ps[f].0@ == name
        },
    decreases ps.len() - i,
{
    if i < ps.len() && ps[i].0@ != name {
        lemma_pkg_lookup(ps, name, i + 1);
    }
}

proof fn lemma_pkg_lookup_at(ps: Seq<(String, Package)>, name: Seq<char>, from: int, f: int)
    requires
        0 <= from <= f < ps.len(),
        ps[f].0@ == name,
        forall|k: int| from <= k < f ==> (#[trigger] ps[k]).0@ != name,
    ensures
        spec_pkg_lookup_from(ps, name, from) == f,
    decreases f - from,
{
    if from < f {
        lemma_pkg_lookup_at(ps, name, from + 1, f);
    }
}

fn pkg_lookup(ps: &Vec<(String, Package)>, name: &Vec<char>) -> (r: Option<usize>)
    ensures
        match r {
            Some(f) => f < ps@.len() && spec_pkg_lookup(ps@, name@) == f,
            None => spec_pkg_lookup(ps@, name@) == -1,
        },
{
    let mut j: usize = 0;
    while j < ps.len()
        invariant
            0 <= j <= ps@.len(),
            forall|k: int| 0 <= k < j ==> (#[trigger] ps@[k]).0@ != name@,
        decreases ps@.len() - j,
    {
        if vec_eq(&to_chars(ps[j].0.as_str()), name) {
            proof {
                lemma_pkg_lookup_at(ps@, name@, 0, j as int);
            }
            return Some(j);
        }
        j += 1;
    }
    proof {
        lemma_pkg_lookup(ps@, name@, 0);
        if spec_pkg_lookup(ps@, name@) != -1 {
            let f = spec_pkg_lookup(ps@, name@);
            assert(ps@[f].0@ == name@);
        }
    }
    None
}

pub open spec fn spec_is_abs(p: Seq<char>) -> bool {
    p.len() > 0 && p[0] == '/'
}

/// Joining a relative path under a base, before cleaning.
pub open spec fn spec_join(base: Seq<char>, rel: Seq<char>) -> Seq<char> {
    base + seq!['/'] + rel
}

/// Whether a `file:`/`link:`/`portal:` path points at the local package's
/// root: taken as it stands when absolute, else joined to the dependent's
/// root and cleaned.
pub open spec fn spec_path_links(dep_root: Seq<char>, src_root: Seq<char>, p: Seq<char>) -> bool {
    if spec_is_abs(p) {
        p == dep_root
    } else {
        spec_clean(spec_join(src_root, p)) == dep_root
    }
}

fn path_links(dep_root: &String, src_root: &String, p: &String) -> (r: bool)
    ensures
        r == spec_path_links(dep_root@, src_root@, p@),
{
    let pc = to_chars(p.as_str());
    if pc.len() > 0 && pc[0] == '/' {
        vec_eq(&pc, &to_chars(dep_root.as_str()))
    } else {
        let mut joined = to_chars(src_root.as_str());
        joined.push('/');
        append_vec(&mut joined, &pc);
        proof {
            assert(joined@ =~= spec_join(src_root@, p@));
        }
        let joined_s = string_of(&joined);
        let cleaned = clean_path_text(joined_s.as_str());
        vec_eq(&to_chars(cleaned.as_str()), &to_chars(dep_root.as_str()))
    }
}

/// Whether an optional caret or tilde workspace version lets the local
/// package stand in: no version at all, or the local version satisfies the
/// requirement made of the operator and the declared version.
pub open spec fn spec_ws_range_links(
    dep_version: Option<semver::Version>,
    v: Option<semver::Version>,
    op: char,
) -> bool {
    match v {
        None => true,
        Some(x) => match spec_req_parse(seq![op] + spec_version_str(x)) {
            Some(q) => match dep_version {
                Some(d) => spec_req_matches(q, d),
                None => false,
            },
            None => false,
        },
    }
}

/// The name under which a dependency looks for a local package: the alias
/// of an aliased workspace protocol, else the dependency name.
pub open spec fn spec_lookup_key(name: Seq<char>, vp: VersionProtocol) -> Seq<char> {
    match vp {
        VersionProtocol::Workspace(WorkspaceProtocol::Any { alias: Some(a) }) => a@,
        VersionProtocol::Workspace(WorkspaceProtocol::Tilde { alias: Some(a), .. }) => a@,
        VersionProtocol::Workspace(WorkspaceProtocol::Caret { alias: Some(a), .. }) => a@,
        _ => name,
    }
}

/// The table: when a declared constraint is satisfied by the local package
/// it names.
pub open spec fn spec_protocol_links(vp: VersionProtocol, src_root: Seq<char>, dp: Package)
    -> bool {
    match vp {
        VersionProtocol::Requirement(req) => spec_req_str(req) == star_seq() || (
        match dp.manifest.version {
            Some(v) => spec_req_matches(req, v),
            None => false,
        }),
        VersionProtocol::Version(v) => dp.manifest.version == Some(v),
        VersionProtocol::File(p) => spec_path_links(dp.root@, src_root, p@),
        VersionProtocol::Link(p) => spec_path_links(dp.root@, src_root, p@),
        VersionProtocol::Portal(p) => spec_path_links(dp.root@, src_root, p@),
        VersionProtocol::Workspace(w) => match w {
            WorkspaceProtocol::Any { .. } => true,
            WorkspaceProtocol::Tilde { version, .. } => spec_ws_range_links(
                dp.manifest.version,
                version,
                '~',
            ),
            WorkspaceProtocol::Caret { version, .. } => spec_ws_range_links(
                dp.manifest.version,
                version,
                '^',
            ),
            WorkspaceProtocol::File(p) => spec_path_links(dp.root@, src_root, p@),
            WorkspaceProtocol::Version(v) => dp.manifest.version == Some(v),
        },
        _ => false,
    }
}

fn ws_range_links(
    dep_version: &Option<semver::Version>,
    v: &Option<semver::Version>,
    op: char,
) -> (r: bool)
    ensures
        r == spec_ws_range_links(*dep_version, *v, op),
{
    match v {
        None => true,
        Some(x) => {
            let vs = crate::semver_api::version_to_string(x);
            let mut req_text: Vec<char> = Vec::new();
            req_text.push(op);
            append_vec(&mut req_text, &to_chars(vs.as_str()));
            proof {
                assert(req_text@ =~= seq![op] + crate::semver_api::spec_version_str(*x));
            }
            let req_s = string_of(&req_text);
            match crate::semver_api::req_parse(req_s.as_str()) {
                Ok(q) => match dep_version {
                    Some(d) => req_matches(&q, d),
                    None => false,
                },
                Err(_) => false,
            }
        }
    }
}

fn protocol_links(vp: &VersionProtocol, src_root: &String, dp: &Package) -> (r: bool)
    ensures
        r == spec_protocol_links(*vp, src_root@, *dp),
{
    match vp {
        VersionProtocol::Requirement(req) => {
            if req_is_star(req) {
                true
            } else {
                match &dp.manifest.version {
                    Some(v) => req_matches(req, v),
                    None => false,
                }
            }
        }
        VersionProtocol::Version(v) => {
            match &dp.manifest.version {
                Some(d) => version_eq(d, v),
                None => false,
            }
        }
        VersionProtocol::File(p) => path_links(&dp.root, src_root, p),
        VersionProtocol::Link(p) => path_links(&dp.root, src_root, p),
        VersionProtocol::Portal(p) => path_links(&dp.root, src_root, p),
        VersionProtocol::Workspace(w) => {
            match w {
                WorkspaceProtocol::Any { .. } => true,
                WorkspaceProtocol::Tilde { version, .. } => ws_range_links(
                    &dp.manifest.version,
                    version,
                    '~',
                ),
                WorkspaceProtocol::Caret { version, .. } => ws_range_links(
                    &dp.manifest.version,
                    version,
                    '^',
                ),
                WorkspaceProtocol::File(p) => path_links(&dp.root, src_root, p),
                WorkspaceProtocol::Version(v) => {
                    match &dp.manifest.version {
                        Some(d) => version_eq(d, v),
                        None => false,
                    }
                }
            }
        }
        _ => false,
    }
}

/// The edges one dependency list yields, in list order.
pub open spec fn spec_dep_edges(
    src_node: usize,
    src_root: Seq<char>,
    deps: Seq<(String, VersionProtocol)>,
    ps: Seq<(String, Package)>,
    dt: DependencyType,
) -> Seq<(usize, usize, DependencyType)>
    decreases deps.len(),
{
    if deps.len() == 0 {
        Seq::empty()
    } else {
        let rest = spec_dep_edges(src_node, src_root, deps.drop_first(), ps, dt);
        let k = spec_pkg_lookup(ps, spec_lookup_key(deps[0].0@, deps[0].1));
        if k != -1 && spec_protocol_links(deps[0].1, src_root, ps[k].1) {
            seq![(src_node, (k + 1) as usize, dt)] + rest
        } else {
            rest
        }
    }
}

pub open spec fn spec_opt_dep_edges(
    src_node: usize,
    src_root: Seq<char>,
    deps: Option<DependenciesMap>,
    ps: Seq<(String, Package)>,
    dt: DependencyType,
) -> Seq<(usize, usize, DependencyType)> {
    match deps {
        Some(d) => spec_dep_edges(src_node, src_root, d@, ps, dt),
        None => Seq::empty(),
    }
}

/// The edges one manifest yields: production, development, peer, optional,
/// in that order.
pub open spec fn spec_manifest_edges(
    src_node: usize,
    src_root: Seq<char>,
    m: PackageJson,
    ps: Seq<(String, Package)>,
) -> Seq<(usize, usize, DependencyType)> {
    spec_opt_dep_edges(src_node, src_root, m.dependencies, ps, DependencyType::Production)
        + spec_opt_dep_edges(src_node, src_root, m.dev_dependencies, ps, DependencyType::Development)
        + spec_opt_dep_edges(src_node, src_root, m.peer_dependencies, ps, DependencyType::Peer)
        + spec_opt_dep_edges(
        src_node,
        src_root,
        m.optional_dependencies,
        ps,
        DependencyType::Optional,
    )
}

pub open spec fn spec_pkgs_edges(ps: Seq<(String, Package)>, i: int) -> Seq<
    (usize, usize, DependencyType),
>
    decreases ps.len() - i,
{
    if i < 0 || i >= ps.len() {
        Seq::empty()
    } else {
        spec_manifest_edges((i + 1) as usize, ps[i].1.root@, ps[i].1.manifest, ps)
            + spec_pkgs_edges(ps, i + 1)
    }
}

/// Every edge of the graph: the root's manifest first, then each workspace
/// package in name order.
pub open spec fn spec_all_edges(
    root_root: Seq<char>,
    root_m: PackageJson,
    ps: Seq<(String, Package)>,
) -> Seq<(usize, usize, DependencyType)> {
    spec_manifest_edges(0, root_root, root_m, ps) + spec_pkgs_edges(ps, 0)
}

// ---------------------------------------------------------------------------
// The graph itself.
// ---------------------------------------------------------------------------

pub struct PackageGraph {
    /// The working directory the discovery started from.
    pub cwd: String,
    pub manager: PackageManager,
    /// Workspace packages, keyed and ordered by name.
    pub packages: Vec<(String, Package)>,
    /// The workspace root directory.
    pub root: String,
    pub root_package: Package,
    pub graph: petgraph::graph::DiGraph<String, DependencyType>,
    pub package_globs: Vec<String>,
}

pub open spec fn spec_root_label_seq() -> Seq<char> {
    seq!['(', 'r', 'o', 'o', 't', ')']
}

pub open spec fn spec_deps_len(o: Option<DependenciesMap>) -> int {
    match o {
        Some(d) => d@.len() as int,
        None => 0,
    }
}

pub open spec fn spec_manifest_deps_len(m: PackageJson) -> int {
    spec_deps_len(m.dependencies) + spec_deps_len(m.dev_dependencies) + spec_deps_len(
        m.peer_dependencies,
    ) + spec_deps_len(m.optional_dependencies)
}

pub open spec fn spec_pkgs_deps_len(ps: Seq<(String, Package)>, i: int) -> int
    decreases ps.len() - i,
{
    if i < 0 || i >= ps.len() {
        0
    } else {
        spec_manifest_deps_len(ps[i].1.manifest) + spec_pkgs_deps_len(ps, i + 1)
    }
}

proof fn lemma_dep_edges_len(
    src_node: usize,
    src_root: Seq<char>,
    deps: Seq<(String, VersionProtocol)>,
    ps: Seq<(String, Package)>,
    dt: DependencyType,
)
    ensures
        spec_dep_edges(src_node, src_root, deps, ps, dt).len() <= deps.len(),
    decreases deps.len(),
{
    if deps.len() > 0 {
        lemma_dep_edges_len(src_node, src_root, deps.drop_first(), ps, dt);
    }
}

proof fn lemma_manifest_edges_len(
    src_node: usize,
    src_root: Seq<char>,
    m: PackageJson,
    ps: Seq<(String, Package)>,
)
    ensures
        spec_manifest_edges(src_node, src_root, m, ps).len() <= spec_manifest_deps_len(m),
{
    if m.dependencies is Some {
        lemma_dep_edges_len(src_node, src_root, m.dependencies.unwrap()@, ps,
            DependencyType::Production);
    }
    if m.dev_dependencies is Some {
        lemma_dep_edges_len(src_node, src_root, m.dev_dependencies.unwrap()@, ps,
            DependencyType::Development);
    }
    if m.peer_dependencies is Some {
        lemma_dep_edges_len(src_node, src_root, m.peer_dependencies.unwrap()@, ps,
            DependencyType::Peer);
    }
    if m.optional_dependencies is Some {
        lemma_dep_edges_len(src_node, src_root, m.optional_dependencies.unwrap()@, ps,
            DependencyType::Optional);
    }
}

/// Law: every edge leaves an existing node and lands on a workspace
/// package's node — so its target name is a key in `packages` — and its
/// label is the dependency category of the manifest list it came from,
/// which is how the construction tags it.
pub proof fn lemma_dep_edges_in_range(
    src_node: usize,
    src_root: Seq<char>,
    deps: Seq<(String, VersionProtocol)>,
    ps: Seq<(String, Package)>,
    dt: DependencyType,
)
    requires
        ps.len() < 1000000000,
    ensures
        forall|k: int|
            0 <= k < spec_dep_edges(src_node, src_root, deps, ps, dt).len() ==> {
                let e = #[trigger] spec_dep_edges(src_node, src_root, deps, ps, dt)[k];
                &&& e.0 == src_node
                &&& 1 <= e.1 <= ps.len()
                &&& e.2 == dt
            },
    decreases deps.len(),
{
    if deps.len() > 0 {
        lemma_dep_edges_in_range(src_node, src_root, deps.drop_first(), ps, dt);
        let j = spec_pkg_lookup(ps, spec_lookup_key(deps[0].0@, deps[0].1));
        lemma_pkg_lookup(ps, spec_lookup_key(deps[0].0@, deps[0].1), 0);
        let es = spec_dep_edges(src_node, src_root, deps, ps, dt);
        let rest = spec_dep_edges(src_node, src_root, deps.drop_first(), ps, dt);
        assert forall|k: int| 0 <= k < es.len() implies {
            let e = #[trigger] es[k];
            &&& e.0 == src_node
            &&& 1 <= e.1 <= ps.len()
            &&& e.2 == dt
        } by {
            if j != -1 && spec_protocol_links(deps[0].1, src_root, ps[j].1) {
                if k > 0 {
                    assert(es[k] == rest[k - 1]);
                }
            } else {
                assert(es[k] == rest[k]);
            }
        }
    }
}

pub proof fn lemma_manifest_edges_in_range(
    src_node: usize,
    src_root: Seq<char>,
    m: PackageJson,
    ps: Seq<(String, Package)>,
)
    requires
        ps.len() < 1000000000,
    ensures
        forall|k: int|
            0 <= k < spec_manifest_edges(src_node, src_root, m, ps).len() ==> {
                let e = #[trigger] spec_manifest_edges(src_node, src_root, m, ps)[k];
                &&& e.0 == src_node
                &&& 1 <= e.1 <= ps.len()
            },
{
    if m.dependencies is Some {
        lemma_dep_edges_in_range(src_node, src_root, m.dependencies.unwrap()@, ps,
            DependencyType::Production);
    }
    if m.dev_dependencies is Some {
        lemma_dep_edges_in_range(src_node, src_root, m.dev_dependencies.unwrap()@, ps,
            DependencyType::Development);
    }
    if m.peer_dependencies is Some {
        lemma_dep_edges_in_range(src_node, src_root, m.peer_dependencies.unwrap()@, ps,
            DependencyType::Peer);
    }
    if m.optional_dependencies is Some {
        lemma_dep_edges_in_range(src_node, src_root, m.optional_dependencies.unwrap()@, ps,
            DependencyType::Optional);
    }
}

pub proof fn lemma_all_edges_in_range(
    root_root: Seq<char>,
    root_m: PackageJson,
    ps: Seq<(String, Package)>,
)
    requires
        ps.len() < 1000000000,
    ensures
        forall|k: int|
            0 <= k < spec_all_edges(root_root, root_m, ps).len() ==> {
                let e = #[trigger] spec_all_edges(root_root, root_m, ps)[k];
                &&& e.0 <= ps.len()
                &&& 1 <= e.1 <= ps.len()
            },
{
    lemma_manifest_edges_in_range(0, root_root, root_m, ps);
    lemma_pkgs_edges_in_range(ps, 0);
}

proof fn lemma_pkgs_edges_in_range(ps: Seq<(String, Package)>, i: int)
    requires
        0 <= i,
        ps.len() < 1000000000,
    ensures
        forall|k: int|
            0 <= k < spec_pkgs_edges(ps, i).len() ==> {
                let e = #[trigger] spec_pkgs_edges(ps, i)[k];
                &&& e.0 <= ps.len()
                &&& 1 <= e.1 <= ps.len()
            },
    decreases ps.len() - i,
{
    if i < ps.len() {
        lemma_manifest_edges_in_range((i + 1) as usize, ps[i].1.root@, ps[i].1.manifest, ps);
        lemma_pkgs_edges_in_range(ps, i + 1);
        let head = spec_manifest_edges((i + 1) as usize, ps[i].1.root@, ps[i].1.manifest, ps);
        let tail = spec_pkgs_edges(ps, i + 1);
        assert forall|k: int| 0 <= k < spec_pkgs_edges(ps, i).len() implies {
            let e = #[trigger] spec_pkgs_edges(ps, i)[k];
            &&& e.0 <= ps.len()
            &&& 1 <= e.1 <= ps.len()
        } by {
            if k < head.len() {
                assert(spec_pkgs_edges(ps, i)[k] == head[k]);
            } else {
                assert(spec_pkgs_edges(ps, i)[k] == tail[k - head.len()]);
            }
        }
    }
}

impl PackageGraph {
    pub open spec fn wf(&self) -> bool {
        packages_wf(self.packages@)
    }

    /// The graph matches the held packages: one node for the root and one
    /// per package, and every edge inside that range.
    pub open spec fn graph_wf(&self) -> bool {
        &&& pg_nodes(self.graph).len() == self.packages@.len() + 1
        &&& forall|k: int|
            0 <= k < pg_edges(self.graph).len() ==> {
                let e = #[trigger] pg_edges(self.graph)[k];
                e.0 < pg_nodes(self.graph).len() && e.1 < pg_nodes(self.graph).len()
            }
    }

    /// Whether workspaces take part: globs were declared and packages were
    /// found.
    pub fn is_workspaces_enabled(&self) -> (r: bool)
        ensures
            r == (self.package_globs@.len() > 0 && self.packages@.len() > 0),
    {
        self.package_globs.len() > 0 && self.packages.len() > 0
    }

    /// The root node's label: the root manifest's name, with `(root)`
    /// standing in when workspaces are enabled and the root is nameless.
    pub open spec fn spec_root_label(&self) -> Result<Seq<char>, Seq<char>> {
        if self.package_globs@.len() > 0 && self.packages@.len() > 0 {
            match self.root_package.manifest.name {
                Some(n) => Ok(n@),
                None => Ok(spec_root_label_seq()),
            }
        } else {
            match self.root_package.manifest.name {
                Some(n) => Ok(n@),
                None => Err(self.root_package.root@),
            }
        }
    }

    /// Build the dependency graph: one node per package, and an edge for
    /// every dependency that a local package satisfies, labeled by its
    /// category.
    #[verifier::loop_isolation(false)]
    pub fn generate_graph(&mut self) -> (r: Result<(), PackageGraphError>)
        requires
            old(self).wf(),
            spec_manifest_deps_len(old(self).root_package.manifest) + spec_pkgs_deps_len(
                old(self).packages@,
                0,
            ) < 500000000,
        ensures
            final(self).wf(),
            final(self).packages@ == old(self).packages@,
            final(self).root_package == old(self).root_package,
            final(self).package_globs@ == old(self).package_globs@,
            match r {
                Ok(()) => {
                    &&& old(self).spec_root_label() matches Ok(label)
                    &&& pg_nodes(final(self).graph).len() == 1 + old(self).packages@.len()
                    &&& pg_nodes(final(self).graph)[0]@ == label
                    &&& forall|i: int|
                        0 <= i < old(self).packages@.len() ==> pg_nodes(final(self).graph)[i + 1]
                            == old(self).packages@[i].0
                    &&& pg_edges(final(self).graph) == spec_all_edges(
                        old(self).root_package.root@,
                        old(self).root_package.manifest,
                        old(self).packages@,
                    )
                    &&& final(self).graph_wf()
                },
                Err(e) => {
                    &&& old(self).spec_root_label() matches Err(p)
                    &&& e matches PackageGraphError::MissingPackageName(q) && q@ == p
                },
            },
    {
        let enabled = self.is_workspaces_enabled();
        let label: String = if enabled {
            match &self.root_package.manifest.name {
                Some(n) => n.clone(),
                None => {
                    let v = vec!['(', 'r', 'o', 'o', 't', ')'];
                    proof {
                        assert(v@ =~= spec_root_label_seq());
                    }
                    string_of(&v)
                }
            }
        } else {
            match self.root_package.get_name() {
                Ok(n) => n,
                Err(e) => {
                    return Err(e);
                }
            }
        };
        let mut graph = pg_new();
        let _root_node = pg_add_node(&mut graph, label);
        // One node per package, in name order; the node of package `i` is
        // `i + 1`.
        let mut i: usize = 0;
        while i < self.packages.len()
            invariant
                0 <= i <= self.packages@.len(),
                pg_nodes(graph).len() == i + 1,
                pg_nodes(graph)[0]@ == old(self).spec_root_label()->Ok_0,
                forall|k: int| 0 <= k < i ==> pg_nodes(graph)[k + 1] == self.packages@[k].0,
                pg_edges(graph).len() == 0,
                self == old(self),
            decreases self.packages@.len() - i,
        {
            let name = self.packages[i].0.clone();
            pg_add_node(&mut graph, name);
            i += 1;
        }
        // The root's edges, then each package's, in order.
        let ghost ps = self.packages@;
        proof {
            lemma_manifest_edges_len(0, self.root_package.root@, self.root_package.manifest, ps);
            lemma_deps_len_nonneg(ps, 0);
        }
        add_manifest_edges(
            &mut graph,
            0,
            &self.root_package.root,
            &self.root_package.manifest,
            &self.packages,
        );
        let mut j: usize = 0;
        proof {
            assert(pg_edges(graph) =~= spec_manifest_edges(
                0,
                self.root_package.root@,
                self.root_package.manifest,
                ps,
            ) + spec_pkgs_edges(ps, 0).take(0));
        }
        while j < self.packages.len()
            invariant
                0 <= j <= self.packages@.len(),
                self == old(self),
                ps == self.packages@,
                pg_nodes(graph).len() == self.packages@.len() + 1,
                pg_nodes(graph)[0]@ == old(self).spec_root_label()->Ok_0,
                forall|k: int|
                    0 <= k < self.packages@.len() ==> pg_nodes(graph)[k + 1]
                        == self.packages@[k].0,
                pg_edges(graph) =~= spec_manifest_edges(
                    0,
                    self.root_package.root@,
                    self.root_package.manifest,
                    ps,
                ) + spec_pkgs_edges_upto(ps, j as int),
                pg_edges(graph).len() <= spec_manifest_deps_len(self.root_package.manifest)
                    + spec_pkgs_deps_len_upto(ps, j as int),
            decreases self.packages@.len() - j,
        {
            let src_root = self.packages[j].1.root.clone();
            proof {
                lemma_manifest_edges_len(
                    (j + 1) as usize,
                    src_root@,
                    self.packages@[j as int].1.manifest,
                    ps,
                );
                lemma_pkgs_deps_len_upto(ps, j as int);
                lemma_deps_len_upto_mono(ps, j as int);
                lemma_deps_len_nonneg(ps, j as int + 1);
                assert(spec_pkgs_deps_len(ps, j as int) == spec_manifest_deps_len(
                    ps[j as int].1.manifest,
                ) + spec_pkgs_deps_len(ps, j as int + 1));
            }
            // The package's manifest is borrowed from `self`, so the edges
            // are added against a clone of its root.
            add_manifest_edges_at(
                &mut graph,
                j + 1,
                &src_root,
                self,
                j,
            );
            proof {
                lemma_pkgs_edges_upto_snoc(ps, j as int);
            }
            j += 1;
        }
        proof {
            lemma_pkgs_edges_upto_all(ps);
            assert(pg_edges(graph) =~= spec_all_edges(
                self.root_package.root@,
                self.root_package.manifest,
                ps,
            ));
        }
        self.graph = graph;
        proof {
            lemma_all_edges_in_range(
                self.root_package.root@,
                self.root_package.manifest,
                ps,
            );
        }
        Ok(())
    }
}

proof fn lemma_out_edges_bounded(es: Seq<(usize, usize, DependencyType)>, a: usize, n: int)
    requires
        forall|k: int| 0 <= k < es.len() ==> (#[trigger] es[k]).1 < n,
    ensures
        forall|i: int|
            0 <= i < out_edges_rev(es, a).len() ==> (#[trigger] out_edges_rev(es, a)[i]).0 < n,
    decreases es.len(),
{
    if es.len() > 0 {
        assert(forall|k: int|
            0 <= k < es.drop_last().len() ==> es.drop_last()[k] == es[k]);
        lemma_out_edges_bounded(es.drop_last(), a, n);
        if es.last().0 == a {
            assert(es[es.len() - 1].1 < n);
            assert forall|i: int|
                0 <= i < out_edges_rev(es, a).len() implies (#[trigger] out_edges_rev(
                es,
                a,
            )[i]).0 < n by {
                if i > 0 {
                    assert(out_edges_rev(es, a)[i] == out_edges_rev(es.drop_last(), a)[i - 1]);
                }
            }
        }
    }
}

proof fn lemma_in_edges_bounded(es: Seq<(usize, usize, DependencyType)>, a: usize, n: int)
    requires
        forall|k: int| 0 <= k < es.len() ==> (#[trigger] es[k]).0 < n,
    ensures
        forall|i: int|
            0 <= i < in_edges_rev(es, a).len() ==> (#[trigger] in_edges_rev(es, a)[i]).0 < n,
    decreases es.len(),
{
    if es.len() > 0 {
        assert(forall|k: int|
            0 <= k < es.drop_last().len() ==> es.drop_last()[k] == es[k]);
        lemma_in_edges_bounded(es.drop_last(), a, n);
        if es.last().1 == a {
            assert(es[es.len() - 1].0 < n);
            assert forall|i: int|
                0 <= i < in_edges_rev(es, a).len() implies (#[trigger] in_edges_rev(
                es,
                a,
            )[i]).0 < n by {
                if i > 0 {
                    assert(in_edges_rev(es, a)[i] == in_edges_rev(es.drop_last(), a)[i - 1]);
                }
            }
        }
    }
}

/// The names a walk over adjacent edges yields, with the edge labels.
pub open spec fn spec_named_edges(
    es: Seq<(usize, DependencyType)>,
    nodes: Seq<String>,
) -> Seq<(String, DependencyType)> {
    Seq::new(es.len(), |i: int| (nodes[es[i].0 as int], es[i].1))
}

impl PackageGraph {
    /// The packages the named package depends on, with the category of each
    /// dependency, in the order the graph walks its outgoing edges.
    pub fn dependencies_of(&self, name: &String) -> (r: Result<
        Vec<(String, DependencyType)>,
        PackageGraphError,
    >)
        requires
            self.wf(),
            self.graph_wf(),
        ensures
            match r {
                Ok(v) => {
                    &&& spec_pkg_lookup(self.packages@, name@) != -1
                    &&& v@ == spec_named_edges(
                        out_edges_rev(
                            pg_edges(self.graph),
                            (spec_pkg_lookup(self.packages@, name@) + 1) as usize,
                        ),
                        pg_nodes(self.graph),
                    )
                },
                Err(e) => {
                    &&& spec_pkg_lookup(self.packages@, name@) == -1
                    &&& e == PackageGraphError::UnknownPackage(*name)
                },
            },
    {
        let k = match pkg_lookup(&self.packages, &to_chars(name.as_str())) {
            Some(k) => k,
            None => {
                return Err(PackageGraphError::UnknownPackage(name.clone()));
            }
        };
        let n = self.packages.len();
        proof {
            lemma_out_edges_bounded(
                pg_edges(self.graph),
                (k + 1) as usize,
                pg_nodes(self.graph).len() as int,
            );
        }
        let out = pg_edges_out(&self.graph, k + 1);
        self.name_edges(out)
    }

    /// The packages that depend on the named package, with the category of
    /// each dependency, in the order the graph walks its incoming edges.
    pub fn dependents_of(&self, name: &String) -> (r: Result<
        Vec<(String, DependencyType)>,
        PackageGraphError,
    >)
        requires
            self.wf(),
            self.graph_wf(),
        ensures
            match r {
                Ok(v) => {
                    &&& spec_pkg_lookup(self.packages@, name@) != -1
                    &&& v@ == spec_named_edges(
                        in_edges_rev(
                            pg_edges(self.graph),
                            (spec_pkg_lookup(self.packages@, name@) + 1) as usize,
                        ),
                        pg_nodes(self.graph),
                    )
                },
                Err(e) => {
                    &&& spec_pkg_lookup(self.packages@, name@) == -1
                    &&& e == PackageGraphError::UnknownPackage(*name)
                },
            },
    {
        let k = match pkg_lookup(&self.packages, &to_chars(name.as_str())) {
            Some(k) => k,
            None => {
                return Err(PackageGraphError::UnknownPackage(name.clone()));
            }
        };
        let n = self.packages.len();
        proof {
            lemma_in_edges_bounded(
                pg_edges(self.graph),
                (k + 1) as usize,
                pg_nodes(self.graph).len() as int,
            );
        }
        let inc = pg_edges_in(&self.graph, k + 1);
        self.name_edges(inc)
    }

    /// Replace each adjacent node index by its name.
    fn name_edges(&self, es: Vec<(usize, DependencyType)>) -> (r: Result<
        Vec<(String, DependencyType)>,
        PackageGraphError,
    >)
        requires
            forall|i: int|
                0 <= i < es@.len() ==> (#[trigger] es@[i]).0 < pg_nodes(self.graph).len(),
        ensures
            r matches Ok(v) && v@ == spec_named_edges(es@, pg_nodes(self.graph)),
    {
        let mut out: Vec<(String, DependencyType)> = Vec::new();
        let mut i: usize = 0;
        while i < es.len()
            invariant
                0 <= i <= es@.len(),
                forall|k: int|
                    0 <= k < es@.len() ==> (#[trigger] es@[k]).0 < pg_nodes(self.graph).len(),
                out@.len() == i,
                forall|k: int|
                    0 <= k < i ==> #[trigger] out@[k] == (
                        pg_nodes(self.graph)[es@[k].0 as int],
                        es@[k].1,
                    ),
            decreases es@.len() - i,
        {
            let w = pg_node_weight(&self.graph, es[i].0);
            out.push((w, es[i].1));
            i += 1;
        }
        proof {
            assert(out@ =~= spec_named_edges(es@, pg_nodes(self.graph)));
        }
        Ok(out)
    }
}

/// The edges of the first `j` packages.
pub open spec fn spec_pkgs_edges_upto(ps: Seq<(String, Package)>, j: int) -> Seq<
    (usize, usize, DependencyType),
>
    decreases j,
{
    if j <= 0 {
        Seq::empty()
    } else {
        spec_pkgs_edges_upto(ps, j - 1) + spec_manifest_edges(
            j as usize,
            ps[j - 1].1.root@,
            ps[j - 1].1.manifest,
            ps,
        )
    }
}

pub open spec fn spec_pkgs_deps_len_upto(ps: Seq<(String, Package)>, j: int) -> int
    decreases j,
{
    if j <= 0 {
        0
    } else {
        spec_pkgs_deps_len_upto(ps, j - 1) + spec_manifest_deps_len(ps[j - 1].1.manifest)
    }
}

/// The prefix construction meets the suffix one at the whole list.
proof fn lemma_pkgs_edges_upto_all(ps: Seq<(String, Package)>)
    ensures
        spec_pkgs_edges_upto(ps, ps.len() as int) =~= spec_pkgs_edges(ps, 0),
{
    lemma_pkgs_edges_split(ps, ps.len() as int);
    assert(spec_pkgs_edges(ps, ps.len() as int) =~= Seq::<(usize, usize, DependencyType)>::empty());
}

/// `edges(ps, 0) == upto(j) + from(j)` for every split point.
proof fn lemma_pkgs_edges_split(ps: Seq<(String, Package)>, j: int)
    requires
        0 <= j <= ps.len(),
    ensures
        spec_pkgs_edges_upto(ps, j) + spec_pkgs_edges(ps, j) =~= spec_pkgs_edges(ps, 0),
    decreases j,
{
    if j == 0 {
        assert(spec_pkgs_edges_upto(ps, 0) + spec_pkgs_edges(ps, 0) =~= spec_pkgs_edges(ps, 0));
    } else {
        lemma_pkgs_edges_split(ps, j - 1);
        assert(spec_pkgs_edges(ps, j - 1) =~= spec_manifest_edges(
            j as usize,
            ps[j - 1].1.root@,
            ps[j - 1].1.manifest,
            ps,
        ) + spec_pkgs_edges(ps, j));
        assert(spec_pkgs_edges_upto(ps, j) + spec_pkgs_edges(ps, j) =~= spec_pkgs_edges_upto(
            ps,
            j - 1,
        ) + spec_pkgs_edges(ps, j - 1));
    }
}

proof fn lemma_pkgs_edges_upto_snoc(ps: Seq<(String, Package)>, j: int)
    requires
        0 <= j < ps.len(),
    ensures
        spec_pkgs_edges_upto(ps, j + 1) == spec_pkgs_edges_upto(ps, j) + spec_manifest_edges(
            (j + 1) as usize,
            ps[j].1.root@,
            ps[j].1.manifest,
            ps,
        ),
{
}

proof fn lemma_pkgs_deps_len_upto(ps: Seq<(String, Package)>, j: int)
    requires
        0 <= j < ps.len(),
    ensures
        spec_pkgs_deps_len_upto(ps, j + 1) == spec_pkgs_deps_len_upto(ps, j)
            + spec_manifest_deps_len(ps[j].1.manifest),
{
}

/// The prefix sums never pass the whole sum.
proof fn lemma_deps_len_upto_mono(ps: Seq<(String, Package)>, j: int)
    requires
        0 <= j <= ps.len(),
    ensures
        spec_pkgs_deps_len_upto(ps, j) + spec_pkgs_deps_len(ps, j) == spec_pkgs_deps_len(ps, 0),
        spec_pkgs_deps_len(ps, j) >= 0,
        spec_pkgs_deps_len_upto(ps, j) >= 0,
    decreases j,
{
    if j > 0 {
        lemma_deps_len_upto_mono(ps, j - 1);
        lemma_deps_len_nonneg(ps, j - 1);
        lemma_deps_len_nonneg(ps, j);
        assert(spec_pkgs_deps_len(ps, j - 1) == spec_manifest_deps_len(ps[j - 1].1.manifest)
            + spec_pkgs_deps_len(ps, j));
    } else {
        lemma_deps_len_nonneg(ps, 0);
    }
}

proof fn lemma_deps_len_nonneg(ps: Seq<(String, Package)>, i: int)
    requires
        0 <= i,
    ensures
        spec_pkgs_deps_len(ps, i) >= 0,
    decreases ps.len() - i,
{
    if i < ps.len() {
        lemma_deps_len_nonneg(ps, i + 1);
    }
}

/// Walk the first `j`th package's manifest and add its edges; a separate
/// function so that the borrow of the manifest inside `pg` stays local.
#[verifier::loop_isolation(false)]
fn add_manifest_edges_at(
    graph: &mut petgraph::graph::DiGraph<String, DependencyType>,
    src_node: usize,
    src_root: &String,
    pg: &PackageGraph,
    j: usize,
)
    requires
        j < pg.packages@.len(),
        src_node as int == j + 1,
        src_root@ == pg.packages@[j as int].1.root@,
        src_node < pg_nodes(*old(graph)).len(),
        pg_nodes(*old(graph)).len() == pg.packages@.len() + 1,
        pg_edges(*old(graph)).len() + spec_manifest_deps_len(pg.packages@[j as int].1.manifest)
            < 1000000000,
    ensures
        pg_nodes(*final(graph)) == pg_nodes(*old(graph)),
        pg_edges(*final(graph)) =~= pg_edges(*old(graph)) + spec_manifest_edges(
            src_node,
            pg.packages@[j as int].1.root@,
            pg.packages@[j as int].1.manifest,
            pg.packages@,
        ),
{
    add_manifest_edges(graph, src_node, src_root, &pg.packages[j].1.manifest, &pg.packages);
    proof {
        assert(src_root@ =~= pg.packages@[j as int].1.root@);
    }
}

/// Add the edges one manifest yields, category by category.
#[verifier::loop_isolation(false)]
fn add_manifest_edges(
    graph: &mut petgraph::graph::DiGraph<String, DependencyType>,
    src_node: usize,
    src_root: &String,
    m: &PackageJson,
    ps: &Vec<(String, Package)>,
)
    requires
        src_node < pg_nodes(*old(graph)).len(),
        pg_nodes(*old(graph)).len() == ps@.len() + 1,
        pg_edges(*old(graph)).len() + spec_manifest_deps_len(*m) < 1000000000,
    ensures
        pg_nodes(*final(graph)) == pg_nodes(*old(graph)),
        pg_edges(*final(graph)) =~= pg_edges(*old(graph)) + spec_manifest_edges(
            src_node,
            src_root@,
            *m,
            ps@,
        ),
{
    match &m.dependencies {
        Some(d) => {
            proof {
                lemma_dep_edges_len(src_node, src_root@, d@, ps@, DependencyType::Production);
            }
            add_dep_edges(graph, src_node, src_root, d, ps, DependencyType::Production);
        }
        None => {}
    }
    match &m.dev_dependencies {
        Some(d) => {
            proof {
                lemma_dep_edges_len(src_node, src_root@, d@, ps@, DependencyType::Development);
            }
            add_dep_edges(graph, src_node, src_root, d, ps, DependencyType::Development);
        }
        None => {}
    }
    match &m.peer_dependencies {
        Some(d) => {
            proof {
                lemma_dep_edges_len(src_node, src_root@, d@, ps@, DependencyType::Peer);
            }
            add_dep_edges(graph, src_node, src_root, d, ps, DependencyType::Peer);
        }
        None => {}
    }
    match &m.optional_dependencies {
        Some(d) => {
            proof {
                lemma_dep_edges_len(src_node, src_root@, d@, ps@, DependencyType::Optional);
            }
            add_dep_edges(graph, src_node, src_root, d, ps, DependencyType::Optional);
        }
        None => {}
    }
}

/// Add the edges one dependency list yields, in list order.
#[verifier::loop_isolation(false)]
fn add_dep_edges(
    graph: &mut petgraph::graph::DiGraph<String, DependencyType>,
    src_node: usize,
    src_root: &String,
    deps: &Vec<(String, VersionProtocol)>,
    ps: &Vec<(String, Package)>,
    dt: DependencyType,
)
    requires
        src_node < pg_nodes(*old(graph)).len(),
        pg_nodes(*old(graph)).len() == ps@.len() + 1,
        pg_edges(*old(graph)).len() + deps@.len() < 1000000000,
    ensures
        pg_nodes(*final(graph)) == pg_nodes(*old(graph)),
        pg_edges(*final(graph)) =~= pg_edges(*old(graph)) + spec_dep_edges(
            src_node,
            src_root@,
            deps@,
            ps@,
            dt,
        ),
{
    let mut i: usize = 0;
    proof {
        assert(deps@.skip(0) =~= deps@);
        lemma_dep_edges_len(src_node, src_root@, deps@, ps@, dt);
    }
    while i < deps.len()
        invariant
            0 <= i <= deps@.len(),
            pg_nodes(*graph) == pg_nodes(*old(graph)),
            pg_edges(*graph) + spec_dep_edges(src_node, src_root@, deps@.skip(i as int), ps@, dt)
                =~= pg_edges(*old(graph)) + spec_dep_edges(src_node, src_root@, deps@, ps@, dt),
            pg_edges(*graph).len() <= pg_edges(*old(graph)).len() + i,
        decreases deps@.len() - i,
    {
        proof {
            assert(deps@.skip(i as int)[0] == deps@[i as int]);
            assert(deps@.skip(i as int).drop_first() =~= deps@.skip(i + 1 as int));
            lemma_dep_edges_len(src_node, src_root@, deps@.skip(i as int), ps@, dt);
        }
        let entry = &deps[i];
        let key: String = match &entry.1 {
            VersionProtocol::Workspace(WorkspaceProtocol::Any { alias: Some(a) }) => a.clone(),
            VersionProtocol::Workspace(WorkspaceProtocol::Tilde { alias: Some(a), .. }) => a.clone(),
            VersionProtocol::Workspace(WorkspaceProtocol::Caret { alias: Some(a), .. }) => a.clone(),
            _ => entry.0.clone(),
        };
        proof {
            assert(key@ == spec_lookup_key(deps@[i as int].0@, deps@[i as int].1));
        }
        match pkg_lookup(ps, &to_chars(key.as_str())) {
            Some(k) => {
                proof {
                    assert(k < ps@.len() && ps@.len() + 1 == pg_nodes(*graph).len());
                }
                let n = ps.len();
                if protocol_links(&entry.1, src_root, &ps[k].1) {
                    pg_add_edge(graph, src_node, k + 1, dt);
                }
            }
            None => {}
        }
        i += 1;
    }
    proof {
        assert(deps@.skip(deps@.len() as int) =~= Seq::<(String, VersionProtocol)>::empty());
    }
}


// ---------------------------------------------------------------------------
// Graphviz serialization, for snapshot-driven consumers.
// ---------------------------------------------------------------------------

pub open spec fn spec_dep_type_name(dt: DependencyType) -> Seq<char> {
    match dt {
        DependencyType::Development => seq!['D', 'e', 'v', 'e', 'l', 'o', 'p', 'm', 'e', 'n', 't'],
        DependencyType::Production => seq!['P', 'r', 'o', 'd', 'u', 'c', 't', 'i', 'o', 'n'],
        DependencyType::Peer => seq!['P', 'e', 'e', 'r'],
        DependencyType::Optional => seq!['O', 'p', 't', 'i', 'o', 'n', 'a', 'l'],
    }
}

pub open spec fn lit_dot_header() -> Seq<char> {
    seq!['d', 'i', 'g', 'r', 'a', 'p', 'h', ' ', '{', '\n']
}

pub open spec fn lit_dot_indent() -> Seq<char> {
    seq![' ', ' ', ' ', ' ']
}

pub open spec fn lit_dot_label_open() -> Seq<char> {
    seq![' ', '[', ' ', 'l', 'a', 'b', 'e', 'l', ' ', '=', ' ', '"']
}

pub open spec fn lit_dot_label_close() -> Seq<char> {
    seq!['"', ' ', ']', '\n']
}

pub open spec fn lit_dot_arrow() -> Seq<char> {
    seq![' ', '-', '>', ' ']
}

pub open spec fn spec_dot_node_line(i: int, name: Seq<char>) -> Seq<char> {
    lit_dot_indent() + crate::strutil::spec_dec(i as nat) + lit_dot_label_open() + name
        + lit_dot_label_close()
}

pub open spec fn spec_dot_edge_line(e: (usize, usize, DependencyType)) -> Seq<char> {
    lit_dot_indent() + crate::strutil::spec_dec(e.0 as nat) + lit_dot_arrow()
        + crate::strutil::spec_dec(e.1 as nat) + lit_dot_label_open() + spec_dep_type_name(e.2)
        + lit_dot_label_close()
}

pub open spec fn spec_dot_nodes_upto(nodes: Seq<String>, i: int) -> Seq<char>
    decreases i,
{
    if i <= 0 {
        Seq::empty()
    } else {
        spec_dot_nodes_upto(nodes, i - 1) + spec_dot_node_line(i - 1, nodes[i - 1]@)
    }
}

pub open spec fn spec_dot_edges_upto(
    edges: Seq<(usize, usize, DependencyType)>,
    i: int,
) -> Seq<char>
    decreases i,
{
    if i <= 0 {
        Seq::empty()
    } else {
        spec_dot_edges_upto(edges, i - 1) + spec_dot_edge_line(edges[i - 1])
    }
}

/// The whole serialization: a header, one line per node with its label,
/// one line per edge with its category, a closing brace.
pub open spec fn spec_dot(nodes: Seq<String>, edges: Seq<(usize, usize, DependencyType)>) -> Seq<
    char,
> {
    lit_dot_header() + spec_dot_nodes_upto(nodes, nodes.len() as int) + spec_dot_edges_upto(
        edges,
        edges.len() as int,
    ) + seq!['}', '\n']
}

fn dep_type_name(dt: DependencyType) -> (r: Vec<char>)
    ensures
        r@ == spec_dep_type_name(dt),
{
    match dt {
        DependencyType::Development => {
            let v = vec!['D', 'e', 'v', 'e', 'l', 'o', 'p', 'm', 'e', 'n', 't'];
            proof {
                assert(v@ =~= spec_dep_type_name(dt));
            }
            v
        }
        DependencyType::Production => {
            let v = vec!['P', 'r', 'o', 'd', 'u', 'c', 't', 'i', 'o', 'n'];
            proof {
                assert(v@ =~= spec_dep_type_name(dt));
            }
            v
        }
        DependencyType::Peer => {
            let v = vec!['P', 'e', 'e', 'r'];
            proof {
                assert(v@ =~= spec_dep_type_name(dt));
            }
            v
        }
        DependencyType::Optional => {
            let v = vec!['O', 'p', 't', 'i', 'o', 'n', 'a', 'l'];
            proof {
                assert(v@ =~= spec_dep_type_name(dt));
            }
            v
        }
    }
}

impl PackageGraph {
    /// Serialize the graph as Graphviz text.
    #[verifier::loop_isolation(false)]
    #[verifier::rlimit(80)]
    pub fn to_dot(&self) -> (r: String)
        ensures
            r@ == spec_dot(pg_nodes(self.graph), pg_edges(self.graph)),
    {
        let mut out: Vec<char> = vec!['d', 'i', 'g', 'r', 'a', 'p', 'h', ' ', '{', '\n'];
        let indent = vec![' ', ' ', ' ', ' '];
        let label_open = vec![' ', '[', ' ', 'l', 'a', 'b', 'e', 'l', ' ', '=', ' ', '"'];
        let label_close = vec!['"', ' ', ']', '\n'];
        let arrow = vec![' ', '-', '>', ' '];
        proof {
            assert(out@ =~= lit_dot_header());
            assert(indent@ =~= lit_dot_indent());
            assert(label_open@ =~= lit_dot_label_open());
            assert(label_close@ =~= lit_dot_label_close());
            assert(arrow@ =~= lit_dot_arrow());
        }
        let n = crate::petgraph_api::pg_node_count(&self.graph);
        let mut i: usize = 0;
        while i < n
            invariant
                0 <= i <= n,
                n as int == pg_nodes(self.graph).len(),
                out@ =~= lit_dot_header() + spec_dot_nodes_upto(pg_nodes(self.graph), i as int),
            decreases n - i,
        {
            append_vec(&mut out, &indent);
            append_vec(&mut out, &crate::strutil::dec_of(i));
            append_vec(&mut out, &label_open);
            let w = pg_node_weight(&self.graph, i);
            append_vec(&mut out, &to_chars(w.as_str()));
            append_vec(&mut out, &label_close);
            proof {
                assert(out@ =~= lit_dot_header() + spec_dot_nodes_upto(
                    pg_nodes(self.graph),
                    i + 1,
                ));
            }
            i += 1;
        }
        let edges = crate::petgraph_api::pg_edge_list(&self.graph);
        let mut j: usize = 0;
        while j < edges.len()
            invariant
                0 <= j <= edges@.len(),
                edges@ == pg_edges(self.graph),
                out@ =~= lit_dot_header() + spec_dot_nodes_upto(
                    pg_nodes(self.graph),
                    pg_nodes(self.graph).len() as int,
                ) + spec_dot_edges_upto(pg_edges(self.graph), j as int),
            decreases edges@.len() - j,
        {
            let e = edges[j];
            append_vec(&mut out, &indent);
            append_vec(&mut out, &crate::strutil::dec_of(e.0));
            append_vec(&mut out, &arrow);
            append_vec(&mut out, &crate::strutil::dec_of(e.1));
            append_vec(&mut out, &label_open);
            append_vec(&mut out, &dep_type_name(e.2));
            append_vec(&mut out, &label_close);
            proof {
                assert(out@ =~= lit_dot_header() + spec_dot_nodes_upto(
                    pg_nodes(self.graph),
                    pg_nodes(self.graph).len() as int,
                ) + spec_dot_edges_upto(pg_edges(self.graph), j + 1));
            }
            j += 1;
        }
        out.push('}');
        out.push('\n');
        proof {
            assert(out@ =~= spec_dot(pg_nodes(self.graph), pg_edges(self.graph)));
        }
        string_of(&out)
    }
}

} // verus!
