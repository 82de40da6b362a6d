use vstd::prelude::*;

use crate::js::{JavaScriptPackageType, JavaScriptStats};
use crate::module::{Export, ExportV, Import, ImportV, ModuleId};
use crate::sources::{MediaModuleKind, TextModuleKind};
use crate::js::{view_exports, view_imports};

verus! {

// ---------------------------------------------------------------------------
// The module graph: one node per file, owned by id, with `Import` and
// `Export` edges.  Loading walks the files recursively; the graph publishes
// an id for a path before the file's own imports are walked, so that a
// cyclic import finds the id already taken and stops.
// ---------------------------------------------------------------------------

#[derive(Clone, Copy, PartialEq, Eq, Structural, Debug)]
pub enum ModuleGraphEdge {
    Import,
    Export,
}

/// The kind-specific payload of a module.
#[derive(PartialEq, Eq, Debug)]
pub enum ModuleSourceInfo {
    Unknown,
    JavaScript { package_type: JavaScriptPackageType, stats: JavaScriptStats, source: String },
    Css { exports_map: Vec<(String, String)>, is_module: bool, source: String },
    Json { source: String },
    Yaml { source: String },
    Text { kind: TextModuleKind, source: String },
    Media { kind: MediaModuleKind, source: Vec<u8> },
}

/// One source file of the graph.
#[derive(PartialEq, Eq, Debug)]
pub struct Module {
    /// Symbols exported, each optionally with the module they came from.
    pub exports: Vec<Export>,
    /// Fragment appended to the file path by the resolved specifier.
    pub fragment: Option<String>,
    /// Unique id within the graph; `0` stands for "not yet assigned".
    pub id: ModuleId,
    /// Modules imported from, with the symbols taken.
    pub imports: Vec<Import>,
    /// Name of the nearest enclosing package.
    pub package_name: Option<String>,
    /// Absolute, cleaned path of the file.
    pub path: String,
    /// Query appended to the file path by the resolved specifier.
    pub query: Option<String>,
    /// Kind-specific source information.
    pub source: ModuleSourceInfo,
}

/// One entry of the path registry.  An id is never reused: an abandoned load
/// leaves its entry dead, and a retry allocates a fresh id.
#[derive(PartialEq, Eq, Debug)]
pub struct PathEntry {
    pub path: String,
    pub id: ModuleId,
    pub live: bool,
}

pub struct ModuleGraph {
    /// Finished modules, in completion order.
    pub modules: Vec<Module>,
    /// Edges of the graph, in insertion order.
    pub edges: Vec<(ModuleId, ModuleId, ModuleGraphEdge)>,
    /// The path registry, in allocation order: entry `i` owns id `i + 1`.
    pub paths: Vec<PathEntry>,
}

pub open spec fn committed(g: ModuleGraph, id: ModuleId) -> bool {
    exists|i: int| 0 <= i < g.modules@.len() && (#[trigger] g.modules@[i]).id == id
}

impl ModuleGraph {
    /// The id the next registration will take.
    pub open spec fn spec_next_id(&self) -> int {
        self.paths@.len() as int + 1
    }

    /// The registry entry of a path, dead entries set aside.
    pub open spec fn path_id(&self, path: Seq<char>) -> Option<ModuleId> {
        if exists|i: int|
            0 <= i < self.paths@.len() && (#[trigger] self.paths@[i]).live && self.paths@[i].path@
                == path {
            let i = choose|i: int|
                0 <= i < self.paths@.len() && (#[trigger] self.paths@[i]).live
                    && self.paths@[i].path@ == path;
            Some(self.paths@[i].id)
        } else {
            None
        }
    }

    /// The standing invariants of the graph.
    ///
    /// - Ids are handed out densely and monotonically, starting at 1: the
    ///   registry entry at position `i` owns id `i + 1`; id `0` is never
    ///   assigned.
    /// - Live paths are unique.
    /// - Every finished module holds its registered id under its registered
    ///   path, so the path index and the id map agree.
    /// - Every edge endpoint and every resolved import or re-export of a
    ///   finished module is an assigned id; `0` marks an unresolved import.
    pub open spec fn wf(&self) -> bool {
        &&& self.paths@.len() + 1 <= u32::MAX as int
        &&& forall|i: int|
            0 <= i < self.paths@.len() ==> (#[trigger] self.paths@[i]).id == i + 1
        &&& forall|i: int, j: int|
            0 <= i < j < self.paths@.len() && (#[trigger] self.paths@[i]).live
                && (#[trigger] self.paths@[j]).live ==> self.paths@[i].path@
                != self.paths@[j].path@
        &&& forall|k: int|
            0 <= k < self.modules@.len() ==> {
                let m = #[trigger] self.modules@[k];
                &&& 1 <= m.id < self.spec_next_id()
                &&& m.path@ == self.paths@[m.id - 1].path@
                &&& self.paths@[m.id - 1].live
                &&& forall|x: int|
                    0 <= x < m.imports@.len() ==> (#[trigger] m.imports@[x]).module_id
                        < self.spec_next_id()
                &&& forall|x: int|
                    0 <= x < m.exports@.len() ==> (match (#[trigger] m.exports@[x]).module_id {
                        Some(t) => 1 <= t < self.spec_next_id(),
                        None => true,
                    })
            }
        &&& forall|k: int, l: int|
            0 <= k < l < self.modules@.len() ==> (#[trigger] self.modules@[k]).id
                != (#[trigger] self.modules@[l]).id
        &&& forall|x: int|
            0 <= x < self.edges@.len() ==> {
                let e = #[trigger] self.edges@[x];
                &&& 1 <= e.0 < self.spec_next_id()
                &&& 1 <= e.1 < self.spec_next_id()
            }
    }

    pub fn new() -> (r: ModuleGraph)
        ensures
            r.wf(),
            r.modules@.len() == 0,
            r.edges@.len() == 0,
            r.spec_next_id() == 1,
    {
        ModuleGraph { modules: Vec::new(), edges: Vec::new(), paths: Vec::new() }
    }

    /// Find the id a live path is registered under.  A second load of the
    /// same path gets the same id and does no work: this is what lets a
    /// cyclic import terminate.
    pub fn lookup_path(&self, path: &String) -> (r: Option<ModuleId>)
        requires
            self.wf(),
        ensures
            r == self.path_id(path@),
            r matches Some(id) ==> 1 <= id < self.spec_next_id(),
    {
        let mut i: usize = 0;
        while i < self.paths.len()
            invariant
                self.wf(),
                0 <= i <= self.paths@.len(),
                forall|j: int|
                    0 <= j < i ==> !((#[trigger] self.paths@[j]).live && self.paths@[j].path@
                        == path@),
            decreases self.paths@.len() - i,
        {
            let e = &self.paths[i];
            if e.live && crate::strutil::vec_eq(
                &crate::to_chars(e.path.as_str()),
                &crate::to_chars(path.as_str()),
            ) {
                proof {
                    assert(self.path_id(path@) == Some(self.paths@[i as int].id)) by {
                        let w = choose|w: int|
                            0 <= w < self.paths@.len() && (#[trigger] self.paths@[w]).live
                                && self.paths@[w].path@ == path@;
                        if w != i {
                            assert(self.paths@[w].path@ != self.paths@[i as int].path@);
                        }
                    }
                }
                return Some(e.id);
            }
            i += 1;
        }
        proof {
            if self.path_id(path@) is Some {
                let w = choose|w: int|
                    0 <= w < self.paths@.len() && (#[trigger] self.paths@[w]).live
                        && self.paths@[w].path@ == path@;
                assert(!(self.paths@[w].live && self.paths@[w].path@ == path@));
            }
        }
        None
    }

    /// Register a fresh path and hand out the next id.  The id is published
    /// before the file's imports are walked.
    pub fn register_path(&mut self, path: String) -> (r: ModuleId)
        requires
            old(self).wf(),
            old(self).path_id(path@) is None,
            old(self).spec_next_id() < u32::MAX as int,
        ensures
            final(self).wf(),
            r as int == old(self).spec_next_id(),
            final(self).spec_next_id() == old(self).spec_next_id() + 1,
            final(self).path_id(path@) == Some(r),
            final(self).modules@ == old(self).modules@,
            final(self).edges@ == old(self).edges@,
    {
        let id: u32 = (self.paths.len() + 1) as u32;
        self.paths.push(PathEntry { path, id, live: true });
        proof {
            let n = self.paths@.len() - 1;
            assert(self.paths@[n].live && self.paths@[n].path@ == self.paths@[n].path@);
            assert(self.path_id(self.paths@[n].path@) == Some(id)) by {
                let w = choose|w: int|
                    0 <= w < self.paths@.len() && (#[trigger] self.paths@[w]).live
                        && self.paths@[w].path@ == self.paths@[n].path@;
                if w != n {
                    assert(old(self).paths@[w].live && old(self).paths@[w].path@
                        == self.paths@[n].path@);
                    assert(old(self).path_id(self.paths@[n].path@) is Some);
                }
            }
        }
        id
    }

    /// Drop a failed load: the partial module is not committed, its path
    /// entry dies — a later lookup of the path finds nothing, so a retried
    /// load takes a fresh id.
    pub fn abandon_path(&mut self, id: ModuleId)
        requires
            old(self).wf(),
            1 <= id < old(self).spec_next_id(),
            old(self).paths@[id - 1].live,
            !committed(*old(self), id),
        ensures
            final(self).wf(),
            final(self).spec_next_id() == old(self).spec_next_id(),
            final(self).modules@ == old(self).modules@,
            final(self).edges@ == old(self).edges@,
            final(self).paths@ == old(self).paths@.update(
                id - 1,
                PathEntry { path: old(self).paths@[id - 1].path, id, live: false },
            ),
            final(self).path_id(old(self).paths@[id - 1].path@) is None,
    {
        let idx = (id - 1) as usize;
        let path = self.paths[idx].path.clone();
        self.paths.set(idx, PathEntry { path, id, live: false });
        proof {
            assert(self.paths@ =~= old(self).paths@.update(
                id - 1,
                PathEntry { path: old(self).paths@[id - 1].path, id, live: false },
            ));
            let p = old(self).paths@[id - 1].path@;
            if self.path_id(p) is Some {
                let w = choose|w: int|
                    0 <= w < self.paths@.len() && (#[trigger] self.paths@[w]).live
                        && self.paths@[w].path@ == p;
                assert(w != id - 1);
                assert(old(self).paths@[w].live && old(self).paths@[w].path@ == p);
                assert(old(self).paths@[id - 1].live && old(self).paths@[id - 1].path@ == p);
            }
        }
        proof {
            assert forall|k: int| 0 <= k < self.modules@.len() implies {
                let m = #[trigger] self.modules@[k];
                &&& 1 <= m.id < self.spec_next_id()
                &&& m.path@ == self.paths@[m.id - 1].path@
                &&& self.paths@[m.id - 1].live
                &&& forall|x: int|
                    0 <= x < m.imports@.len() ==> (#[trigger] m.imports@[x]).module_id
                        < self.spec_next_id()
                &&& forall|x: int|
                    0 <= x < m.exports@.len() ==> (match (#[trigger] m.exports@[x]).module_id {
                        Some(t) => 1 <= t < self.spec_next_id(),
                        None => true,
                    })
            } by {
                let m = self.modules@[k];
                assert(old(self).modules@[k] == m);
                if m.id == id {
                    assert(committed(*old(self), id));
                }
            }
        }
    }

    /// Connect an edge between two assigned ids.
    pub fn add_edge(&mut self, from: ModuleId, to: ModuleId, edge: ModuleGraphEdge)
        requires
            old(self).wf(),
            1 <= from < old(self).spec_next_id(),
            1 <= to < old(self).spec_next_id(),
        ensures
            final(self).wf(),
            final(self).edges@ == old(self).edges@.push((from, to, edge)),
            final(self).modules@ == old(self).modules@,
            final(self).spec_next_id() == old(self).spec_next_id(),
            forall|p: Seq<char>| final(self).path_id(p) == old(self).path_id(p),
    {
        self.edges.push((from, to, edge));
    }

    /// Commit a finished module under its registered id.
    pub fn commit_module(&mut self, m: Module)
        requires
            old(self).wf(),
            1 <= m.id < old(self).spec_next_id(),
            old(self).path_id(m.path@) == Some(m.id),
            !committed(*old(self), m.id),
            forall|x: int|
                0 <= x < m.imports@.len() ==> (#[trigger] m.imports@[x]).module_id < old(
                    self,
                ).spec_next_id(),
            forall|x: int|
                0 <= x < m.exports@.len() ==> (match (#[trigger] m.exports@[x]).module_id {
                    Some(t) => 1 <= t < old(self).spec_next_id(),
                    None => true,
                }),
        ensures
            final(self).wf(),
            final(self).modules@ == old(self).modules@.push(m),
            final(self).edges@ == old(self).edges@,
            final(self).spec_next_id() == old(self).spec_next_id(),
            forall|p: Seq<char>| final(self).path_id(p) == old(self).path_id(p),
    {
        proof {
            let w = choose|w: int|
                0 <= w < self.paths@.len() && (#[trigger] self.paths@[w]).live
                    && self.paths@[w].path@ == m.path@;
            assert(self.paths@[w].id == w + 1);
            assert(w == m.id - 1);
            if committed(*self, m.id) {
            }
            assert forall|k: int| 0 <= k < self.modules@.len() implies (#[trigger] self.modules@[k]).id
                != m.id by {
                if self.modules@[k].id == m.id {
                    assert(committed(*old(self), m.id));
                }
            }
        }
        self.modules.push(m);
    }

    /// Law: in a well-formed graph the path index and the id of every
    /// finished module agree: looking a module's path up yields its id.
    pub proof fn lemma_path_index_inverts(&self, k: int)
        requires
            self.wf(),
            0 <= k < self.modules@.len(),
        ensures
            self.path_id(self.modules@[k].path@) == Some(self.modules@[k].id),
    {
        let m = self.modules@[k];
        assert(self.paths@[m.id - 1].live && self.paths@[m.id - 1].path@ == m.path@);
        let w = choose|w: int|
            0 <= w < self.paths@.len() && (#[trigger] self.paths@[w]).live && self.paths@[w].path@
                == m.path@;
        if w != m.id - 1 {
            assert(self.paths@[w].path@ != self.paths@[m.id - 1].path@);
        }
    }

    /// A graph whose build ran to the end: nothing was abandoned, and every
    /// registered path carries a finished module.
    pub open spec fn fully_built(&self) -> bool {
        forall|i: int|
            0 <= i < self.paths@.len() ==> (#[trigger] self.paths@[i]).live && committed(
                *self,
                (i + 1) as ModuleId,
            )
    }

    /// Law: in a fully built graph, every resolved import and re-export of
    /// every module names a finished module — `0` marks only the
    /// unresolved case.
    pub proof fn lemma_imports_point_at_modules(&self, k: int, x: int)
        requires
            self.wf(),
            self.fully_built(),
            0 <= k < self.modules@.len(),
            0 <= x < self.modules@[k].imports@.len(),
            self.modules@[k].imports@[x].module_id != 0,
        ensures
            committed(*self, self.modules@[k].imports@[x].module_id),
    {
        let t = self.modules@[k].imports@[x].module_id;
        assert(1 <= t < self.spec_next_id());
        assert(self.paths@[t - 1].live && committed(*self, ((t - 1) + 1) as ModuleId));
    }

    /// The same for a re-export's resolved module.
    pub proof fn lemma_exports_point_at_modules(&self, k: int, x: int)
        requires
            self.wf(),
            self.fully_built(),
            0 <= k < self.modules@.len(),
            0 <= x < self.modules@[k].exports@.len(),
            self.modules@[k].exports@[x].module_id is Some,
        ensures
            committed(*self, self.modules@[k].exports@[x].module_id.unwrap()),
    {
        let t = self.modules@[k].exports@[x].module_id.unwrap();
        assert(1 <= t < self.spec_next_id());
        assert(self.paths@[t - 1].live && committed(*self, ((t - 1) + 1) as ModuleId));
    }

    /// Law: id assignment is dense and monotonic starting at 1 — the entry
    /// at registry position `i` owns id `i + 1` — and id `0` is never a
    /// finished module's id.
    pub proof fn lemma_ids_dense(&self)
        requires
            self.wf(),
        ensures
            forall|i: int|
                0 <= i < self.paths@.len() ==> (#[trigger] self.paths@[i]).id == i + 1,
            forall|k: int| 0 <= k < self.modules@.len() ==> (#[trigger] self.modules@[k]).id != 0,
    {
    }
}

} // verus!
