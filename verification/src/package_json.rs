use vstd::prelude::*;

use crate::import_export::{ImportExportField, ImportExportKey};
use crate::version::VersionProtocol;

verus! {

// ---------------------------------------------------------------------------
// The manifest subset the graphs read.  Deliberately narrow: anything not
// named here lands in `other_fields` as raw text.
// ---------------------------------------------------------------------------

#[derive(PartialEq, Eq, Debug)]
pub enum BrowserField {
    Text(String),
    /// A replacement map; the values are kept as raw text.
    Table(Vec<(String, String)>),
}

#[derive(PartialEq, Eq, Debug)]
pub struct DependencyMetaField {
    pub injected: Option<bool>,
    pub built: Option<bool>,
    pub optional: Option<bool>,
    pub unplugged: Option<bool>,
}

#[derive(PartialEq, Eq, Debug)]
pub struct PeerDependencyMetaField {
    pub optional: Option<bool>,
}

#[derive(PartialEq, Eq, Debug)]
pub enum WorkspacesField {
    Globs(Vec<String>),
    Config { packages: Vec<String>, nohoist: Option<Vec<String>> },
}

/// One dependency map, in the name order of the manifest's decoded map.
pub type DependenciesMap = Vec<(String, VersionProtocol)>;

#[derive(PartialEq, Eq, Debug)]
pub struct PackageJson {
    pub name: Option<String>,
    pub version: Option<semver::Version>,
    /// The `type` field.
    pub type_of: Option<String>,
    pub scripts: Option<Vec<(String, String)>>,
    pub main: Option<String>,
    pub module: Option<String>,
    pub browser: Option<BrowserField>,
    pub imports: Option<Vec<(ImportExportKey, ImportExportField)>>,
    pub exports: Option<ImportExportField>,
    pub dependencies: Option<DependenciesMap>,
    pub dependencies_meta: Option<Vec<(String, DependencyMetaField)>>,
    pub dev_dependencies: Option<DependenciesMap>,
    pub peer_dependencies: Option<DependenciesMap>,
    pub peer_dependencies_meta: Option<Vec<(String, PeerDependencyMetaField)>>,
    pub bundle_dependencies: Option<Vec<String>>,
    pub optional_dependencies: Option<DependenciesMap>,
    pub engines: Option<Vec<(String, VersionProtocol)>>,
    pub package_manager: Option<String>,
    pub workspaces: Option<WorkspacesField>,
    /// Unrecognized fields, each value as its raw text.
    pub other_fields: Vec<(String, String)>,
}

impl PackageJson {
    /// A manifest with every field absent.
    pub fn empty() -> (r: PackageJson)
        ensures
            r.name is None,
            r.version is None,
            r.type_of is None,
            r.scripts is None,
            r.main is None,
            r.module is None,
            r.browser is None,
            r.imports is None,
            r.exports is None,
            r.dependencies is None,
            r.dependencies_meta is None,
            r.dev_dependencies is None,
            r.peer_dependencies is None,
            r.peer_dependencies_meta is None,
            r.bundle_dependencies is None,
            r.optional_dependencies is None,
            r.engines is None,
            r.package_manager is None,
            r.workspaces is None,
            r.other_fields@.len() == 0,
    {
        PackageJson {
            name: None,
            version: None,
            type_of: None,
            scripts: None,
            main: None,
            module: None,
            browser: None,
            imports: None,
            exports: None,
            dependencies: None,
            dependencies_meta: None,
            dev_dependencies: None,
            peer_dependencies: None,
            peer_dependencies_meta: None,
            bundle_dependencies: None,
            optional_dependencies: None,
            engines: None,
            package_manager: None,
            workspaces: None,
            other_fields: Vec::new(),
        }
    }
}

} // verus!
