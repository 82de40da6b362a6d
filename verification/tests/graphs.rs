use jsgraph::js::{
    AwaitImportInit, BindingPat, DefaultDecl, ExtractImportsExports, IdInfo, ImportSpecifierInfo,
    JsEvent, NamedDecl, NamedSpecifier, ObjectProp, TopStatement,
};
use jsgraph::module::ExportedKind;
use jsgraph::module::{ExportKind, ImportKind, ImportedKind, Span};
use jsgraph::module_graph::{Module, ModuleGraph, ModuleGraphEdge, ModuleSourceInfo};
use jsgraph::package_graph::{
    find_package_root, load_workspace_packages, DependencyType, DirProbe, Package, PackageGraph,
    PackageGraphError, PackageManager,
};
use jsgraph::package_json::PackageJson;
use jsgraph::sources::{
    category_of, document_export, media_kind_of, css_merge_references, CssModuleReference,
    DocumentRoot, MediaModuleKind, SourceCategory,
};
use jsgraph::version::VersionProtocol;
use jsgraph::js::JavaScriptPackageType;
use jsgraph::tsconfig::{replace_path_config_dir, replace_string_config_dir};

fn chars(s: &str) -> Vec<char> {
    s.chars().collect()
}

#[test]
fn esm_import_chain_extraction() {
    // `import { hello } from "./b.mjs"` yields one static import with one
    // value symbol and no rename.
    let events = vec![
        JsEvent::Program {
            statements: vec![TopStatement::ImportDecl],
        },
        JsEvent::ImportDecl {
            span: Span { start: 0, end: 36 },
            source: "./b.mjs".to_string(),
            is_type: false,
            specifiers: Some(vec![ImportSpecifierInfo::Named {
                imported: "hello".to_string(),
                local: IdInfo {
                    name: "hello".to_string(),
                    symbol_id: None,
                },
                is_type: false,
            }]),
        },
    ];
    let st = ExtractImportsExports::extract(&events);
    assert_eq!(st.imports.len(), 1);
    let imp = &st.imports[0];
    assert_eq!(imp.kind, ImportKind::AsyncStatic);
    assert_eq!(imp.source_request, "./b.mjs");
    assert_eq!(imp.symbols.len(), 1);
    assert_eq!(imp.symbols[0].kind, ImportedKind::Value);
    assert_eq!(imp.symbols[0].name, "hello");
    assert_eq!(imp.symbols[0].source_name, None);
    assert_eq!(st.stats.import_statements, 1);
    assert_eq!(st.stats.other_statements, 0);
}

#[test]
fn dynamic_destructured_import() {
    // `const { a, default: d } = await import("./m.js")`, met again at the
    // expression level, is extracted once with the binding's symbols.
    let span = Span { start: 10, end: 30 };
    let events = vec![
        JsEvent::Declarator {
            binding: BindingPat::Object {
                properties: vec![
                    ObjectProp {
                        key: Some("a".to_string()),
                        value: BindingPat::Ident(IdInfo {
                            name: "a".to_string(),
                            symbol_id: None,
                        }),
                    },
                    ObjectProp {
                        key: Some("default".to_string()),
                        value: BindingPat::Ident(IdInfo {
                            name: "d".to_string(),
                            symbol_id: None,
                        }),
                    },
                ],
                rest: None,
            },
            init: Some(AwaitImportInit {
                span,
                string_arg: Some("./m.js".to_string()),
            }),
        },
        JsEvent::ImportExpression {
            span,
            string_arg: Some("./m.js".to_string()),
        },
    ];
    let st = ExtractImportsExports::extract(&events);
    assert_eq!(st.imports.len(), 1);
    let imp = &st.imports[0];
    assert_eq!(imp.kind, ImportKind::AsyncDynamic);
    assert_eq!(imp.symbols.len(), 2);
    assert_eq!(imp.symbols[0].kind, ImportedKind::Value);
    assert_eq!(imp.symbols[0].name, "a");
    assert_eq!(imp.symbols[1].kind, ImportedKind::Default);
    assert_eq!(imp.symbols[1].name, "d");
    assert_eq!(imp.symbols[1].source_name, None);
    assert_eq!(st.stats.dynamic_import_count, 1);
}

#[test]
fn require_counted_once_per_span() {
    let span = Span { start: 5, end: 20 };
    let call = |s: Span| JsEvent::Call {
        span: s,
        callee: Some("require".to_string()),
        argument_count: 1,
        string_arg: Some("m".to_string()),
    };
    let events = vec![call(span), call(span), call(Span { start: 40, end: 55 })];
    let st = ExtractImportsExports::extract(&events);
    assert_eq!(st.imports.len(), 2);
    assert_eq!(st.stats.require_count, 2);
}

#[test]
fn css_composes_merge_by_specifier() {
    let refs = vec![
        CssModuleReference::Dependency {
            name: "x".to_string(),
            specifier: "./dep.css".to_string(),
        },
        CssModuleReference::Dependency {
            name: "y".to_string(),
            specifier: "./dep.css".to_string(),
        },
    ];
    let mut imports = Vec::new();
    css_merge_references(&mut imports, &refs);
    assert_eq!(imports.len(), 1);
    assert_eq!(imports[0].kind, ImportKind::SyncStatic);
    assert_eq!(imports[0].source_request, "./dep.css");
    assert_eq!(imports[0].symbols.len(), 2);
    assert_eq!(imports[0].symbols[0].name, "x");
    assert_eq!(imports[0].symbols[1].name, "y");
}

#[test]
fn json_non_object_root_single_default() {
    let export = document_export(&DocumentRoot::Other);
    assert_eq!(export.kind, ExportKind::Native);
    assert_eq!(export.symbols.len(), 1);
    assert_eq!(export.symbols[0].name, "default");

    let export = document_export(&DocumentRoot::Object {
        keys: vec!["name".to_string(), "version".to_string()],
    });
    assert_eq!(export.symbols.len(), 3);
    assert_eq!(export.symbols[1].name, "name");
    assert_eq!(export.symbols[2].name, "version");
}

#[test]
fn dispatch_by_extension() {
    assert_eq!(category_of(&chars("css")), SourceCategory::Css);
    assert_eq!(category_of(&chars("tsx")), SourceCategory::JavaScript);
    assert_eq!(category_of(&chars("json5")), SourceCategory::Json);
    assert_eq!(category_of(&chars("yml")), SourceCategory::Yaml);
    assert_eq!(category_of(&chars("graphql")), SourceCategory::Text);
    assert_eq!(category_of(&chars("png")), SourceCategory::Media);
    assert_eq!(category_of(&chars("exe")), SourceCategory::Media);
    assert_eq!(media_kind_of(&chars("png")), Some(MediaModuleKind::Image));
    assert_eq!(media_kind_of(&chars("opus")), Some(MediaModuleKind::Audio));
    assert_eq!(media_kind_of(&chars("webm")), Some(MediaModuleKind::Video));
    // The unsupported-file case: not in any media table.
    assert_eq!(media_kind_of(&chars("exe")), None);
}

#[test]
fn snapshot_sorting() {
    let mut st = ExtractImportsExports::extract(&vec![
        JsEvent::ImportDecl {
            span: Span { start: 0, end: 1 },
            source: "./b".to_string(),
            is_type: false,
            specifiers: Some(vec![ImportSpecifierInfo::Default {
                local: IdInfo {
                    name: "b".to_string(),
                    symbol_id: None,
                },
            }]),
        },
        JsEvent::ImportDecl {
            span: Span { start: 2, end: 3 },
            source: "./a".to_string(),
            is_type: false,
            specifiers: Some(vec![ImportSpecifierInfo::Default {
                local: IdInfo {
                    name: "a".to_string(),
                    symbol_id: None,
                },
            }]),
        },
    ]);
    // Production order is source order.
    assert_eq!(st.imports[0].source_request, "./b");
    jsgraph::snapshot::sort_imports_by_source_request(&mut st.imports);
    assert_eq!(st.imports[0].source_request, "./a");
    assert_eq!(st.imports[1].source_request, "./b");
}

#[test]
fn cyclic_imports_two_nodes_two_edges() {
    let mut g = ModuleGraph::new();
    let a = g.register_path("/root/a.mjs".to_string());
    assert_eq!(a, 1);
    // Walking a's imports finds b unregistered and registers it.
    assert_eq!(g.lookup_path(&"/root/b.mjs".to_string()), None);
    let b = g.register_path("/root/b.mjs".to_string());
    assert_eq!(b, 2);
    // Walking b's imports finds a already registered: the cycle stops here.
    assert_eq!(g.lookup_path(&"/root/a.mjs".to_string()), Some(1));
    g.add_edge(b, a, ModuleGraphEdge::Import);
    g.commit_module(Module {
        exports: Vec::new(),
        fragment: None,
        id: b,
        imports: Vec::new(),
        package_name: None,
        path: "/root/b.mjs".to_string(),
        query: None,
        source: ModuleSourceInfo::Unknown,
    });
    g.add_edge(a, b, ModuleGraphEdge::Import);
    g.commit_module(Module {
        exports: Vec::new(),
        fragment: None,
        id: a,
        imports: Vec::new(),
        package_name: None,
        path: "/root/a.mjs".to_string(),
        query: None,
        source: ModuleSourceInfo::Unknown,
    });
    assert_eq!(g.modules.len(), 2);
    assert_eq!(g.edges.len(), 2);
    assert_eq!(g.edges[0], (2, 1, ModuleGraphEdge::Import));
    assert_eq!(g.edges[1], (1, 2, ModuleGraphEdge::Import));
}

#[test]
fn workspace_caret_local_match() {
    // Two packages a@1.2.3 and b with `"a": "workspace:^1.2.0"`.
    let mut a = PackageJson::empty();
    a.name = Some("a".to_string());
    a.version = Some(semver::Version::new(1, 2, 3));
    let mut b = PackageJson::empty();
    b.name = Some("b".to_string());
    b.dependencies = Some(vec![(
        "a".to_string(),
        VersionProtocol::parse("workspace:^1.2.0").unwrap(),
    )]);

    let packages = load_workspace_packages(vec![
        ("/w/packages/a".to_string(), a),
        ("/w/packages/b".to_string(), b),
    ])
    .unwrap();
    assert_eq!(packages.len(), 2);
    assert_eq!(packages[0].0, "a");
    assert_eq!(packages[0].1.index, 1);
    assert_eq!(packages[1].0, "b");

    let mut root = PackageJson::empty();
    root.name = Some("w".to_string());
    let mut graph = PackageGraph {
        cwd: "/w".to_string(),
        manager: PackageManager::Pnpm,
        packages,
        root: "/w".to_string(),
        root_package: Package::new("/w".to_string(), root),
        graph: petgraph::graph::DiGraph::new(),
        package_globs: vec!["packages/*".to_string()],
    };
    graph.generate_graph().unwrap();
    let deps = graph.dependencies_of(&"b".to_string()).unwrap();
    assert_eq!(deps, vec![("a".to_string(), DependencyType::Production)]);
    let dependents = graph.dependents_of(&"a".to_string()).unwrap();
    assert_eq!(
        dependents,
        vec![("b".to_string(), DependencyType::Production)]
    );
    assert!(matches!(
        graph.dependencies_of(&"zzz".to_string()),
        Err(PackageGraphError::UnknownPackage(_))
    ));
}

#[test]
fn discovery_priorities() {
    let probe = |path: &str| DirProbe {
        path: path.to_string(),
        has_bun_lockb: false,
        has_pnpm_lock: false,
        has_pnpm_workspace: false,
        has_yarn_lock: false,
        has_yarn_dir: false,
        has_yarnrc_yml: false,
        has_package_lock: false,
        has_shrinkwrap: false,
    };
    let mut inner = probe("/w/app");
    let mut outer = probe("/w");
    outer.has_yarn_lock = true;
    outer.has_yarnrc_yml = true;
    assert_eq!(
        find_package_root(&vec![inner.clone(), outer.clone()]),
        Some(("/w".to_string(), PackageManager::Yarn))
    );
    outer.has_yarnrc_yml = false;
    assert_eq!(
        find_package_root(&vec![inner.clone(), outer.clone()]),
        Some(("/w".to_string(), PackageManager::YarnLegacy))
    );
    inner.has_pnpm_workspace = true;
    assert_eq!(
        find_package_root(&vec![inner, outer]),
        Some(("/w/app".to_string(), PackageManager::Pnpm))
    );
    assert_eq!(find_package_root(&vec![probe("/x")]), None);
}

#[test]
fn package_type_determination() {
    assert_eq!(
        JavaScriptPackageType::determine(&"/p/a.cjs".to_string(), &None),
        JavaScriptPackageType::Cjs
    );
    assert_eq!(
        JavaScriptPackageType::determine(&"/p/a.mts".to_string(), &None),
        JavaScriptPackageType::Mjs
    );
    assert_eq!(
        JavaScriptPackageType::determine(&"/p/a.js".to_string(), &Some("module".to_string())),
        JavaScriptPackageType::EsmPackageJson
    );
    assert_eq!(
        JavaScriptPackageType::determine(&"/p/a.js".to_string(), &Some("commonjs".to_string())),
        JavaScriptPackageType::CjsPackageJson
    );
    assert_eq!(
        JavaScriptPackageType::determine(&"/p/a.js".to_string(), &None),
        JavaScriptPackageType::Unknown
    );
    assert!(JavaScriptPackageType::Mjs.is_esm());
    assert!(JavaScriptPackageType::CjsPackageJson.is_cjs());
}

#[test]
fn config_dir_token_replacement() {
    assert_eq!(
        replace_path_config_dir(
            &"${configDir}/out".to_string(),
            &"/proj/shared".to_string(),
            &"/proj/app".to_string()
        ),
        "/proj/app/out"
    );
    assert_eq!(
        replace_string_config_dir(
            &"src/**/*".to_string(),
            &"/proj/shared".to_string(),
            &"/proj/app".to_string()
        ),
        "/proj/shared/src/**/*"
    );
}


#[test]
fn import_named_with_rename() {
    // `import { a as b } from "m"`: the local name is kept, the exporting
    // side's name only on a true rename.
    let st = ExtractImportsExports::extract(&vec![JsEvent::ImportDecl {
        span: Span { start: 0, end: 1 },
        source: "m".to_string(),
        is_type: false,
        specifiers: Some(vec![ImportSpecifierInfo::Named {
            imported: "a".to_string(),
            local: IdInfo {
                name: "b".to_string(),
                symbol_id: None,
            },
            is_type: false,
        }]),
    }]);
    assert_eq!(st.imports[0].symbols[0].name, "b");
    assert_eq!(st.imports[0].symbols[0].source_name, Some("a".to_string()));
}

#[test]
fn export_default_naming() {
    // A named default takes the declaration's name; an anonymous one and a
    // plain expression take `default`; an identifier takes its own name.
    let id = |n: &str| IdInfo {
        name: n.to_string(),
        symbol_id: None,
    };
    let cases = vec![
        (DefaultDecl::Function { id: Some(id("f")) }, "f", ExportedKind::Default),
        (DefaultDecl::Function { id: None }, "default", ExportedKind::Default),
        (DefaultDecl::Class { id: Some(id("C")) }, "C", ExportedKind::Default),
        (DefaultDecl::Identifier { name: "ref".to_string() }, "ref", ExportedKind::Default),
        (DefaultDecl::TsInterface { id: id("I") }, "I", ExportedKind::DefaultType),
        (DefaultDecl::TsEnum { id: id("E") }, "E", ExportedKind::DefaultType),
        (DefaultDecl::Other, "default", ExportedKind::Default),
    ];
    for (decl, name, kind) in cases {
        let st = ExtractImportsExports::extract(&vec![JsEvent::ExportDefault {
            span: Span { start: 0, end: 1 },
            decl,
        }]);
        assert_eq!(st.exports.len(), 1);
        assert_eq!(st.exports[0].symbols.len(), 1);
        assert_eq!(st.exports[0].symbols[0].name, name);
        assert_eq!(st.exports[0].symbols[0].kind, kind);
        assert!(st.stats.exports_default);
    }
}

#[test]
fn ts_import_equals() {
    // `import m = require("m")`: a synchronous import with one default
    // symbol under the local name.
    let st = ExtractImportsExports::extract(&vec![JsEvent::TsImportEquals {
        span: Span { start: 0, end: 1 },
        id: IdInfo {
            name: "m".to_string(),
            symbol_id: None,
        },
        is_type: false,
        external_source: Some("mod".to_string()),
    }]);
    assert_eq!(st.imports.len(), 1);
    assert_eq!(st.imports[0].kind, ImportKind::SyncStatic);
    assert_eq!(st.imports[0].source_request, "mod");
    assert_eq!(st.imports[0].symbols[0].kind, ImportedKind::Default);
    assert_eq!(st.imports[0].symbols[0].name, "m");
}

#[test]
fn export_named_binding_patterns() {
    // `export const { a, b: [c] } = ...`: every bound name becomes a value
    // symbol, in source order.
    let st = ExtractImportsExports::extract(&vec![JsEvent::ExportNamed {
        span: Span { start: 0, end: 1 },
        export_kind_type: false,
        declaration: Some(NamedDecl::Variable {
            bindings: vec![BindingPat::Object {
                properties: vec![
                    ObjectProp {
                        key: Some("a".to_string()),
                        value: BindingPat::Ident(IdInfo {
                            name: "a".to_string(),
                            symbol_id: None,
                        }),
                    },
                    ObjectProp {
                        key: Some("b".to_string()),
                        value: BindingPat::Array {
                            elements: vec![Some(BindingPat::Ident(IdInfo {
                                name: "c".to_string(),
                                symbol_id: None,
                            }))],
                            rest: None,
                        },
                    },
                ],
                rest: None,
            }],
        }),
        specifiers: Vec::new(),
        source: None,
    }]);
    assert_eq!(st.exports.len(), 1);
    let names: Vec<&str> = st.exports[0].symbols.iter().map(|s| s.name.as_str()).collect();
    assert_eq!(names, vec!["a", "c"]);
}

#[test]
fn export_named_type_specifiers() {
    // `export { x, type T } from "m"`: the type modifier marks only its
    // own specifier; the re-export source is kept.
    let st = ExtractImportsExports::extract(&vec![JsEvent::ExportNamed {
        span: Span { start: 0, end: 1 },
        export_kind_type: false,
        declaration: None,
        specifiers: vec![
            NamedSpecifier {
                local_name: "x".to_string(),
                is_type: false,
            },
            NamedSpecifier {
                local_name: "T".to_string(),
                is_type: true,
            },
        ],
        source: Some("m".to_string()),
    }]);
    assert_eq!(st.exports[0].source, Some("m".to_string()));
    assert_eq!(st.exports[0].symbols[0].kind, ExportedKind::Value);
    assert_eq!(st.exports[0].symbols[1].kind, ExportedKind::ValueType);
}

#[test]
fn dot_serialization() {
    let mut b = PackageJson::empty();
    b.name = Some("b".to_string());
    b.dependencies = Some(vec![(
        "a".to_string(),
        VersionProtocol::parse("workspace:*").unwrap(),
    )]);
    let mut a = PackageJson::empty();
    a.name = Some("a".to_string());
    let packages = load_workspace_packages(vec![
        ("/w/packages/a".to_string(), a),
        ("/w/packages/b".to_string(), b),
    ])
    .unwrap();
    let mut root = PackageJson::empty();
    root.name = Some("w".to_string());
    let mut graph = PackageGraph {
        cwd: "/w".to_string(),
        manager: PackageManager::Npm,
        packages,
        root: "/w".to_string(),
        root_package: Package::new("/w".to_string(), root),
        graph: petgraph::graph::DiGraph::new(),
        package_globs: vec!["packages/*".to_string()],
    };
    graph.generate_graph().unwrap();
    let dot = graph.to_dot();
    let expected = "digraph {\n    0 [ label = \"w\" ]\n    1 [ label = \"a\" ]\n    2 [ label = \"b\" ]\n    2 -> 1 [ label = \"Production\" ]\n}\n";
    assert_eq!(dot, expected);
}


#[test]
fn export_star_forms() {
    // `export * from "m"` and `export * as ns from "m"`.
    let st = ExtractImportsExports::extract(&vec![
        JsEvent::ExportAll {
            span: Span { start: 0, end: 1 },
            source: "m".to_string(),
            is_type: false,
            exported: None,
        },
        JsEvent::ExportAll {
            span: Span { start: 2, end: 3 },
            source: "n".to_string(),
            is_type: true,
            exported: Some("ns".to_string()),
        },
    ]);
    assert_eq!(st.exports.len(), 2);
    assert_eq!(st.exports[0].symbols[0].kind, ExportedKind::Namespace);
    assert_eq!(st.exports[0].symbols[0].name, "*");
    assert_eq!(st.exports[0].source, Some("m".to_string()));
    assert_eq!(st.exports[1].symbols[0].kind, ExportedKind::NamespaceType);
    assert_eq!(st.exports[1].symbols[0].name, "ns");
    assert!(st.exports[1].type_only);
}

#[test]
fn legacy_commonjs_exports() {
    // `exports.x = ...` and `module.exports = ...`.
    let st = ExtractImportsExports::extract(&vec![
        JsEvent::StaticMember {
            span: Span { start: 0, end: 1 },
            object: Some("exports".to_string()),
            property: "x".to_string(),
        },
        JsEvent::StaticMember {
            span: Span { start: 2, end: 3 },
            object: Some("module".to_string()),
            property: "exports".to_string(),
        },
        JsEvent::StaticMember {
            span: Span { start: 4, end: 5 },
            object: Some("other".to_string()),
            property: "exports".to_string(),
        },
    ]);
    assert_eq!(st.exports.len(), 2);
    assert_eq!(st.exports[0].kind, ExportKind::Legacy);
    assert_eq!(st.exports[0].symbols[0].name, "x");
    assert_eq!(st.exports[1].symbols[0].kind, ExportedKind::Default);
    assert_eq!(st.exports[1].symbols[0].name, "default");
}

#[test]
fn import_namespace_and_type_forms() {
    // `import type * as ns from "m"` and `import type d from "m"`.
    let st = ExtractImportsExports::extract(&vec![JsEvent::ImportDecl {
        span: Span { start: 0, end: 1 },
        source: "m".to_string(),
        is_type: true,
        specifiers: Some(vec![
            ImportSpecifierInfo::Default {
                local: IdInfo {
                    name: "d".to_string(),
                    symbol_id: None,
                },
            },
            ImportSpecifierInfo::Namespace {
                local: IdInfo {
                    name: "ns".to_string(),
                    symbol_id: None,
                },
            },
        ]),
    }]);
    assert!(st.imports[0].type_only);
    assert_eq!(st.imports[0].symbols[0].kind, ImportedKind::DefaultType);
    assert_eq!(st.imports[0].symbols[1].kind, ImportedKind::NamespaceType);
    assert_eq!(st.imports[0].symbols[1].name, "ns");
}
