use jsgraph::import_export::ImportExportKey;
use jsgraph::tsconfig::PathOrGlob;
use jsgraph::version::VersionProtocol;
use jsgraph::workspace::WorkspaceProtocol;
use semver::{Version, VersionReq};

#[test]
fn empty() {
    let exp = VersionProtocol::Requirement(VersionReq::parse("*").unwrap());
    assert_eq!(VersionProtocol::parse("").unwrap(), exp);
    assert_eq!(exp.format(), "*")
}

#[test]
fn star() {
    let exp = VersionProtocol::Requirement(VersionReq::parse("*").unwrap());
    assert_eq!(VersionProtocol::parse("*").unwrap(), exp);
    assert_eq!(exp.format(), "*")
}

#[test]
fn file() {
    let exp = VersionProtocol::File("../dir".to_string());
    assert_eq!(VersionProtocol::parse("file:../dir").unwrap(), exp);
    assert_eq!(exp.format(), "file:../dir")
}

#[test]
fn git() {
    let exp = VersionProtocol::Git {
        reference: None,
        url: "git://github.com/npm/cli.git".into(),
    };
    assert_eq!(
        VersionProtocol::parse("git://github.com/npm/cli.git").unwrap(),
        exp
    );
    assert_eq!(exp.format(), "git://github.com/npm/cli.git");

    let exp = VersionProtocol::Git {
        reference: None,
        url: "git+https://isaacs@github.com/npm/cli.git".into(),
    };
    assert_eq!(
        VersionProtocol::parse("git+https://isaacs@github.com/npm/cli.git").unwrap(),
        exp
    );
    assert_eq!(exp.format(), "git+https://isaacs@github.com/npm/cli.git");
}

#[test]
fn git_with_ref() {
    let exp = VersionProtocol::Git {
        reference: Some("semver:^5.0".into()),
        url: "git+ssh://git@github.com:npm/cli".into(),
    };
    assert_eq!(
        VersionProtocol::parse("git+ssh://git@github.com:npm/cli#semver:^5.0").unwrap(),
        exp
    );
    assert_eq!(exp.format(), "git+ssh://git@github.com:npm/cli#semver:^5.0");

    let exp = VersionProtocol::Git {
        reference: Some("v1.0.27".into()),
        url: "git+http://git@github.com:npm/cli.git".into(),
    };
    assert_eq!(
        VersionProtocol::parse("git+http://git@github.com:npm/cli.git#v1.0.27").unwrap(),
        exp
    );
    assert_eq!(exp.format(), "git+http://git@github.com:npm/cli.git#v1.0.27");
}

#[test]
fn github() {
    let exp = VersionProtocol::GitHub {
        reference: None,
        owner: "user".into(),
        repo: "repo-name".into(),
    };
    assert_eq!(VersionProtocol::parse("user/repo-name").unwrap(), exp);
    assert_eq!(exp.format(), "user/repo-name")
}

#[test]
fn github_with_ref() {
    let exp = VersionProtocol::GitHub {
        reference: Some("feature/branch".into()),
        owner: "org-name".into(),
        repo: "repo".into(),
    };
    assert_eq!(
        VersionProtocol::parse("org-name/repo#feature/branch").unwrap(),
        exp
    );
    assert_eq!(exp.format(), "org-name/repo#feature/branch")
}

#[test]
fn http_url() {
    let exp = VersionProtocol::Url("http://domain.com/dep.tgz".into());
    assert_eq!(
        VersionProtocol::parse("http://domain.com/dep.tgz").unwrap(),
        exp
    );
    assert_eq!(exp.format(), "http://domain.com/dep.tgz")
}

#[test]
fn https_url() {
    let exp = VersionProtocol::Url("https://domain.com/dep.tgz".into());
    assert_eq!(
        VersionProtocol::parse("https://domain.com/dep.tgz").unwrap(),
        exp
    );
    assert_eq!(exp.format(), "https://domain.com/dep.tgz")
}

#[test]
fn link() {
    let exp = VersionProtocol::Link("../dir".to_string());
    assert_eq!(VersionProtocol::parse("link:../dir").unwrap(), exp);
    assert_eq!(exp.format(), "link:../dir")
}

#[test]
fn portal() {
    let exp = VersionProtocol::Portal("../dir".to_string());
    assert_eq!(VersionProtocol::parse("portal:../dir").unwrap(), exp);
    assert_eq!(exp.format(), "portal:../dir")
}

#[test]
fn range() {
    let exp = VersionProtocol::Requirement(VersionReq::parse(">=1.2.3, <=4.5.6").unwrap());
    assert_eq!(VersionProtocol::parse("1.2.3 - 4.5.6").unwrap(), exp);
    assert_eq!(exp.format(), ">=1.2.3, <=4.5.6")
}

#[test]
fn alternatives() {
    let exp = VersionProtocol::Range(vec![
        VersionReq::parse("^1.2").unwrap(),
        VersionReq::parse("^3").unwrap(),
    ]);
    assert_eq!(VersionProtocol::parse("^1.2 || ^3").unwrap(), exp);
    assert_eq!(exp.format(), "^1.2 || ^3")
}

#[test]
fn workspace_caret_alias_round_trip() {
    let parsed = VersionProtocol::parse("workspace:foo@^1.2.3").unwrap();
    assert_eq!(
        parsed,
        VersionProtocol::Workspace(WorkspaceProtocol::Caret {
            alias: Some("foo".into()),
            version: Some(Version::new(1, 2, 3)),
        })
    );
    assert_eq!(parsed.format(), "workspace:foo@^1.2.3");
    assert_eq!(VersionProtocol::parse(&parsed.format()).unwrap(), parsed);
}

#[test]
fn ws_star() {
    let exp = WorkspaceProtocol::Any { alias: None };
    assert_eq!(WorkspaceProtocol::parse("*").unwrap(), exp);
    assert_eq!(exp.format(), "*")
}

#[test]
fn star_with_alias() {
    let exp = WorkspaceProtocol::Any {
        alias: Some("foo".into()),
    };
    assert_eq!(WorkspaceProtocol::parse("foo@*").unwrap(), exp);
    assert_eq!(exp.format(), "foo@*")
}

#[test]
#[should_panic(expected = "StarNoVersion")]
fn errors_star_more_info() {
    WorkspaceProtocol::parse("*1.2.3").unwrap();
}

#[test]
fn tilde() {
    let exp = WorkspaceProtocol::Tilde {
        alias: None,
        version: None,
    };
    assert_eq!(WorkspaceProtocol::parse("~").unwrap(), exp);
    assert_eq!(exp.format(), "~")
}

#[test]
fn tilde_with_alias() {
    let exp = WorkspaceProtocol::Tilde {
        alias: Some("foo".into()),
        version: None,
    };
    assert_eq!(WorkspaceProtocol::parse("foo@~").unwrap(), exp);
    assert_eq!(exp.format(), "foo@~")
}

#[test]
fn tilde_with_version() {
    let exp = WorkspaceProtocol::Tilde {
        alias: None,
        version: Some(Version::new(1, 2, 3)),
    };
    assert_eq!(WorkspaceProtocol::parse("~1.2.3").unwrap(), exp);
    assert_eq!(exp.format(), "~1.2.3")
}

#[test]
fn tilde_with_alias_and_version() {
    let exp = WorkspaceProtocol::Tilde {
        alias: Some("foo".into()),
        version: Some(Version::new(1, 2, 3)),
    };
    assert_eq!(WorkspaceProtocol::parse("foo@~1.2.3").unwrap(), exp);
    assert_eq!(exp.format(), "foo@~1.2.3")
}

#[test]
#[should_panic(expected = "unexpected end of input while parsing minor version number")]
fn errors_tilde_invalid_version() {
    WorkspaceProtocol::parse("~1.2").unwrap();
}

#[test]
fn caret() {
    let exp = WorkspaceProtocol::Caret {
        alias: None,
        version: None,
    };
    assert_eq!(WorkspaceProtocol::parse("^").unwrap(), exp);
    assert_eq!(exp.format(), "^")
}

#[test]
fn caret_with_alias() {
    let exp = WorkspaceProtocol::Caret {
        alias: Some("foo".into()),
        version: None,
    };
    assert_eq!(WorkspaceProtocol::parse("foo@^").unwrap(), exp);
    assert_eq!(exp.format(), "foo@^")
}

#[test]
fn caret_with_version() {
    let exp = WorkspaceProtocol::Caret {
        alias: None,
        version: Some(Version::new(1, 2, 3)),
    };
    assert_eq!(WorkspaceProtocol::parse("^1.2.3").unwrap(), exp);
    assert_eq!(exp.format(), "^1.2.3")
}

#[test]
fn caret_with_alias_and_version() {
    assert_eq!(
        WorkspaceProtocol::parse("foo@^1.2.3").unwrap(),
        WorkspaceProtocol::Caret {
            alias: Some("foo".into()),
            version: Some(Version::new(1, 2, 3)),
        }
    );
    assert_eq!(
        WorkspaceProtocol::Caret {
            alias: Some("foo".into()),
            version: Some(Version::new(1, 2, 3)),
        }
        .format(),
        "foo@^1.2.3"
    )
}

#[test]
#[should_panic(expected = "unexpected end of input while parsing minor version number")]
fn errors_caret_invalid_version() {
    WorkspaceProtocol::parse("^1.2").unwrap();
}

#[test]
fn file_relative() {
    assert_eq!(
        WorkspaceProtocol::parse("../dir").unwrap(),
        WorkspaceProtocol::File("../dir".to_string())
    );
    assert_eq!(
        WorkspaceProtocol::File("../dir".to_string()).format(),
        "../dir"
    )
}

#[test]
fn file_absolute() {
    assert_eq!(
        WorkspaceProtocol::parse("/dir").unwrap(),
        WorkspaceProtocol::File("/dir".to_string())
    );
    assert_eq!(WorkspaceProtocol::File("/dir".to_string()).format(), "/dir")
}

#[test]
fn version() {
    assert_eq!(
        WorkspaceProtocol::parse("1.2.3").unwrap(),
        WorkspaceProtocol::Version(Version::new(1, 2, 3))
    );
    assert_eq!(
        WorkspaceProtocol::Version(Version::new(1, 2, 3)).format(),
        "1.2.3"
    )
}

#[test]
#[should_panic(expected = "unexpected end of input while parsing minor version number")]
fn errors_invalid_version() {
    WorkspaceProtocol::parse("1.2").unwrap();
}

#[test]
fn range_missing_sides() {
    assert!(matches!(
        VersionProtocol::parse(" - 1.2.3"),
        Err(jsgraph::version::VersionProtocolError::RangeMissingStartVersion)
    ));
    assert!(matches!(
        VersionProtocol::parse("1.2.3 - "),
        Err(jsgraph::version::VersionProtocolError::RangeMissingStopVersion)
    ));
}

#[test]
fn import_export_keys() {
    assert_eq!(ImportExportKey::from("."), ImportExportKey::Main);
    assert_eq!(
        ImportExportKey::from("./sub/path"),
        ImportExportKey::Pattern("/sub/path".to_string())
    );
    assert_eq!(
        ImportExportKey::from("#internal"),
        ImportExportKey::Pattern("#internal".to_string())
    );
    assert_eq!(
        ImportExportKey::from("node"),
        ImportExportKey::CustomCondition("node".to_string())
    );
    for key in [".", "./sub/path", "#internal", "node"] {
        let parsed = ImportExportKey::from(key);
        let again = ImportExportKey::from(&parsed.format());
        assert_eq!(parsed, again);
    }
}

#[test]
fn path_or_glob_round_trip() {
    assert_eq!(
        PathOrGlob::from("src/**/*.ts"),
        PathOrGlob::Glob("src/**/*.ts".to_string())
    );
    assert_eq!(
        PathOrGlob::from("src/main.ts"),
        PathOrGlob::Path("src/main.ts".to_string())
    );
    let g = PathOrGlob::from("src/**/*.ts");
    assert_eq!(PathOrGlob::from(&g.format()), g);
}
