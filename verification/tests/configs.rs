use jsgraph::tsconfig::{
    CompilerOptions, ConfigStore, ExtendsField, JsxField, TsConfigChainError, TsConfigJson,
};

fn cfg(extends: Option<ExtendsField>) -> TsConfigJson {
    TsConfigJson {
        compiler_options: None,
        exclude: None,
        extends,
        files: None,
        included: None,
        references: None,
        other_fields: Vec::new(),
    }
}

fn entry(path: &str, extends: Option<ExtendsField>) -> (String, TsConfigJson) {
    (path.to_string(), cfg(extends))
}

#[test]
fn extend_overlays_field_by_field() {
    let mut base = CompilerOptions::empty();
    base.strict = Some(true);
    base.jsx = Some(JsxField::Preserve);
    base.lib = Some(vec!["es2015".to_string(), "dom".to_string()]);
    base.other_fields = vec![("noUnusedLocals".to_string(), "true".to_string())];

    let mut over = CompilerOptions::empty();
    over.jsx = Some(JsxField::ReactJsx);
    over.lib = Some(vec!["es2022".to_string()]);
    over.allow_js = Some(true);
    over.other_fields = vec![
        ("noUnusedLocals".to_string(), "false".to_string()),
        ("noImplicitAny".to_string(), "true".to_string()),
    ];

    base.extend(over);
    // Options the overlay sets replace, whole; the rest stay.
    assert_eq!(base.strict, Some(true));
    assert_eq!(base.jsx, Some(JsxField::ReactJsx));
    assert_eq!(base.lib, Some(vec!["es2022".to_string()]));
    assert_eq!(base.allow_js, Some(true));
    assert_eq!(
        base.other_fields,
        vec![
            ("noUnusedLocals".to_string(), "false".to_string()),
            ("noImplicitAny".to_string(), "true".to_string()),
        ]
    );
}

#[test]
fn expand_substitutes_config_dir() {
    let mut opts = CompilerOptions::empty();
    opts.out_dir = Some("${configDir}/dist".to_string());
    opts.base_url = Some("src".to_string());
    opts.expand(&"/proj/shared".to_string(), &"/proj/app".to_string());
    assert_eq!(opts.out_dir, Some("/proj/app/dist".to_string()));
    assert_eq!(opts.base_url, Some("/proj/shared/src".to_string()));
}

#[test]
fn chain_singleton_without_extends() {
    let store = ConfigStore {
        entries: vec![entry("/p/tsconfig.json", None)],
        existing: Vec::new(),
    };
    let chain = store.resolve_extends_chain(&"/p/tsconfig.json".to_string()).unwrap();
    assert_eq!(chain, vec![0]);
}

#[test]
fn chain_missing_config() {
    let store = ConfigStore {
        entries: vec![entry(
            "/p/tsconfig.json",
            Some(ExtendsField::Single("./gone.json".to_string())),
        )],
        existing: Vec::new(),
    };
    assert_eq!(
        store.resolve_extends_chain(&"/p/tsconfig.json".to_string()),
        Err(TsConfigChainError::NotFound("/p/./gone.json".to_string()))
    );
}

#[test]
fn chain_cycle_is_an_error() {
    // A package whose config extends itself through the node-modules
    // probe: the walk would never reach a base, so it reports the cycle.
    let pkg = "/p/node_modules/package-one/tsconfig.json";
    let store = ConfigStore {
        entries: vec![entry(
            pkg,
            Some(ExtendsField::Single("package-one".to_string())),
        )],
        existing: vec![pkg.to_string()],
    };
    assert_eq!(
        store.resolve_extends_chain(&pkg.to_string()),
        Err(TsConfigChainError::Cycle)
    );
}

#[test]
fn chain_base_first_through_node_modules() {
    // The root extends two siblings; one of them reaches a package under
    // `node_modules`, which itself extends a scoped package's file.  The
    // chain comes back base first, the root last.
    let root = "/p/tsconfig.json";
    let b = "/p/./nested/b.json";
    let a = "/p/./nested/a.json";
    let c = "/p/./nested/../c.json";
    let pkg1 = "/p/./nested/../node_modules/package-one/tsconfig.json";
    let pkg2 = "/p/./nested/../node_modules/package-one/node_modules/@scope/package-two/tsconfig.other.json";
    let store = ConfigStore {
        entries: vec![
            entry(
                root,
                Some(ExtendsField::Multiple(vec![
                    "./nested/b.json".to_string(),
                    "./nested/a.json".to_string(),
                ])),
            ),
            entry(b, None),
            entry(
                a,
                Some(ExtendsField::Single("../c.json".to_string())),
            ),
            entry(
                c,
                Some(ExtendsField::Multiple(vec!["package-one".to_string()])),
            ),
            entry(
                pkg1,
                Some(ExtendsField::Single(
                    "@scope/package-two/tsconfig.other.json".to_string(),
                )),
            ),
            entry(pkg2, None),
        ],
        existing: vec![pkg1.to_string(), pkg2.to_string()],
    };
    let chain = store.resolve_extends_chain(&root.to_string()).unwrap();
    let paths: Vec<&str> = chain.iter().map(|i| store.entries[*i].0.as_str()).collect();
    assert_eq!(paths, vec![b, pkg2, pkg1, c, a, root]);
}
