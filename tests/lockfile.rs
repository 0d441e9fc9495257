use bun2nix::lockfile::{Lockfile, MetaData, Package as NpmEntry};
use bun2nix::package::IdentifierKind;
use bun2nix::{Binaries, Error, Identifier};

#[test]
fn test_from_str_version_only() {
    let lockfile = r#"
        {
            "lockfileVersion": 1,
        }"#;

    let value: Lockfile = lockfile.parse().unwrap();

    assert!(value.lockfile_version == 1);
}

#[test]
fn test_to_npm_url() {
    let package = NpmEntry(
        "bun-types@1.2.4".to_owned(),
        "".to_owned(),
        MetaData::default(),
        "".to_owned(),
    );

    let out = package.to_npm_url().unwrap();

    assert!(out == "https://registry.npmjs.org/bun-types/-/bun-types-1.2.4.tgz");
}

#[test]
fn test_to_npm_url_with_namespace() {
    let package = NpmEntry(
        "@alloc/quick-lru@5.2.0".to_owned(),
        "".to_owned(),
        MetaData::default(),
        "".to_owned(),
    );

    let out = package.to_npm_url().unwrap();

    assert!(out == "https://registry.npmjs.org/@alloc/quick-lru/-/quick-lru-5.2.0.tgz");
}

#[test]
fn empty_lockfile_has_no_value() {
    let err = Lockfile::parse("").unwrap_err();
    assert!(matches!(err, Error::NoJsoncValue));
}

#[test]
fn comment_only_lockfile_has_no_value() {
    let err = Lockfile::parse("// nothing here\n").unwrap_err();
    assert!(matches!(err, Error::NoJsoncValue));
}

#[test]
fn malformed_lockfile_is_a_parse_error() {
    let err = Lockfile::parse("{ \"lockfileVersion\": ").unwrap_err();
    assert!(matches!(err, Error::ParseJsonc(_)));
}

#[test]
fn unsupported_version_names_it() {
    let err = Lockfile::parse(r#"{ "lockfileVersion": 99, "packages": { "x": [] } }"#).unwrap_err();
    assert!(matches!(err, Error::UnsupportedLockfileVersion(99)));
}

#[test]
fn missing_version_is_invalid() {
    let err = Lockfile::parse(r#"{ "packages": {} }"#).unwrap_err();
    assert!(matches!(err, Error::InvalidLockfile(_)));
}

#[test]
fn version_too_large_for_a_byte_is_invalid() {
    let err = Lockfile::parse(r#"{ "lockfileVersion": 256 }"#).unwrap_err();
    assert!(matches!(err, Error::InvalidLockfile(_)));
}

#[test]
fn document_that_is_not_an_object_is_invalid() {
    let err = Lockfile::parse("[1, 2]").unwrap_err();
    assert!(matches!(err, Error::InvalidLockfile(_)));
}

const FOUR_KINDS: &str = r#"
// a lockfile with one package of each kind
{
  "lockfileVersion": 1,
  "workspaces": {
    "": { "name": "app", "dependencies": { "quick-lru": "^5.2.0" } },
  },
  "packages": {
    "app": ["app@workspace:."],
    "tar": ["tar@https://example.com/tar.tgz", { "bin": "cli.js" }],
    "lodash": ["lodash@github:lodash/lodash#8a26eb4", { "bin": { "a": "a.js", "b": "b.js" } }, "8a26eb4"],
    "@alloc/quick-lru": ["@alloc/quick-lru@5.2.0", "", {}, "sha512-abc"],
  }
}"#;

#[test]
fn reads_every_kind_of_package() {
    let lockfile = Lockfile::parse(FOUR_KINDS).unwrap();
    assert_eq!(lockfile.lockfile_version, 1);
    assert_eq!(lockfile.workspaces.len(), 1);
    assert_eq!(lockfile.workspaces[0].1.name.as_deref(), Some("app"));
    assert_eq!(
        lockfile.workspaces[0].1.dependencies,
        vec![("quick-lru".to_owned(), "^5.2.0".to_owned())]
    );
    assert_eq!(lockfile.packages.len(), 4);

    let find = |name: &str| lockfile.packages.iter().find(|p| p.name == name).unwrap();

    let app = find("app");
    assert!(matches!(&app.identifier, Identifier::Workspace(s) if s == "app@workspace:."));
    assert!(app.hash.is_none());
    assert!(matches!(app.data.binaries, Binaries::Absent));

    let tar = find("tar");
    assert!(matches!(&tar.identifier, Identifier::Tarball(s) if s == "tar@https://example.com/tar.tgz"));
    assert!(matches!(&tar.data.binaries, Binaries::Unnamed(p) if p == "cli.js"));

    let lodash = find("lodash");
    assert!(matches!(&lodash.identifier, Identifier::Git(_)));
    assert_eq!(lodash.hash.as_deref(), Some("8a26eb4"));
    match &lodash.data.binaries {
        Binaries::Named(named) => {
            let mut named = named.clone();
            named.sort();
            assert_eq!(
                named,
                vec![("a".to_owned(), "a.js".to_owned()), ("b".to_owned(), "b.js".to_owned())]
            );
        }
        other => panic!("unexpected binaries {:?}", other),
    }

    let lru = find("@alloc/quick-lru");
    assert!(matches!(&lru.identifier, Identifier::Npm(s) if s == "@alloc/quick-lru@5.2.0"));
    assert_eq!(lru.hash.as_deref(), Some("sha512-abc"));
}

#[test]
fn wrong_arity_names_the_package() {
    let text = r#"{ "lockfileVersion": 1, "packages": { "odd": ["a@1", "", {}, "sha512-x", 5] } }"#;
    let err = Lockfile::parse(text).unwrap_err();
    assert!(matches!(err, Error::InvalidPackageEntry(k) if k == "odd"));
}

#[test]
fn workspace_without_marker_is_refused() {
    let text = r#"{ "lockfileVersion": 1, "packages": { "app": ["app@1.0.0"] } }"#;
    let err = Lockfile::parse(text).unwrap_err();
    assert!(matches!(err, Error::InvalidWorkspaceIdentifier(k) if k == "app"));
}

#[test]
fn npm_without_sha512_is_refused() {
    let text = r#"{ "lockfileVersion": 1, "packages": { "a": ["a@1.0.0", "", {}, "md5-x"] } }"#;
    let err = Lockfile::parse(text).unwrap_err();
    assert!(matches!(err, Error::InvalidIntegrityHash(k) if k == "a"));
}

#[test]
fn malformed_metadata_is_refused() {
    let text = r#"{ "lockfileVersion": 1, "packages": { "t": ["t@https://x/t.tgz", { "bin": 3 }] } }"#;
    let err = Lockfile::parse(text).unwrap_err();
    assert!(matches!(err, Error::InvalidPackageEntry(k) if k == "t"));
}

#[test]
fn packages_that_are_not_an_object_are_invalid() {
    let err = Lockfile::parse(r#"{ "lockfileVersion": 1, "packages": [] }"#).unwrap_err();
    assert!(matches!(err, Error::InvalidLockfile(_)));
}

#[test]
fn malformed_workspace_is_invalid() {
    let text = r#"{ "lockfileVersion": 1, "workspaces": { "": { "name": 3 } } }"#;
    let err = Lockfile::parse(text).unwrap_err();
    assert!(matches!(err, Error::InvalidLockfile(_)));
}

#[test]
fn identifier_kinds_are_told_apart() {
    let lockfile = Lockfile::parse(FOUR_KINDS).unwrap();
    let kinds: Vec<IdentifierKind> = lockfile
        .packages
        .iter()
        .map(|p| match p.identifier {
            Identifier::Npm(_) => IdentifierKind::Npm,
            Identifier::Workspace(_) => IdentifierKind::Workspace,
            Identifier::Git(_) => IdentifierKind::Git,
            Identifier::Tarball(_) => IdentifierKind::Tarball,
        })
        .collect();
    assert!(kinds.contains(&IdentifierKind::Npm));
    assert!(kinds.contains(&IdentifierKind::Workspace));
    assert!(kinds.contains(&IdentifierKind::Git));
    assert!(kinds.contains(&IdentifierKind::Tarball));
}

#[test]
fn reads_peer_dependencies() {
    let text = r#"{ "lockfileVersion": 1, "packages": {
        "react-dom": ["react-dom@19.0.0", "", { "peerDependencies": { "react": "^19.0.0" }, "optionalPeers": ["react"] }, "sha512-x"]
    } }"#;
    let lockfile = Lockfile::parse(text).unwrap();
    assert_eq!(lockfile.packages.len(), 1);
    assert_eq!(lockfile.packages[0].name, "react-dom");
}

#[test]
fn malformed_peer_dependencies_are_refused() {
    let text = r#"{ "lockfileVersion": 1, "packages": {
        "react-dom": ["react-dom@19.0.0", "", { "optionalPeers": "react" }, "sha512-x"]
    } }"#;
    let err = Lockfile::parse(text).unwrap_err();
    assert!(matches!(err, Error::InvalidPackageEntry(k) if k == "react-dom"));
    let text = r#"{ "lockfileVersion": 1, "packages": {
        "react-dom": ["react-dom@19.0.0", "", { "peerDependencies": { "react": 19 } }, "sha512-x"]
    } }"#;
    let err = Lockfile::parse(text).unwrap_err();
    assert!(matches!(err, Error::InvalidPackageEntry(k) if k == "react-dom"));
}

#[test]
fn default_metadata_is_empty() {
    let meta = MetaData::default();
    assert!(meta.peer_dependencies.is_empty());
    assert!(meta.optional_peers.is_empty());
    assert!(matches!(meta.binaries, Binaries::Absent));
}

#[test]
fn null_bin_is_no_binaries() {
    let text = r#"{ "lockfileVersion": 1, "packages": { "t": ["t@https://x/t.tgz", { "bin": null }] } }"#;
    let lockfile = Lockfile::parse(text).unwrap();
    assert!(matches!(lockfile.packages[0].data.binaries, Binaries::Absent));
}

#[test]
fn binaries_parse_by_shape() {
    assert!(matches!(Binaries::parse("\"bin/cli.js\"").unwrap(), Binaries::Unnamed(p) if p == "bin/cli.js"));
    assert!(matches!(
        Binaries::parse("{\"cli\": \"bin/cli.js\"}").unwrap(),
        Binaries::Named(n) if n == vec![("cli".to_owned(), "bin/cli.js".to_owned())]
    ));
    assert!(matches!(Binaries::parse("null").unwrap(), Binaries::Absent));
    assert!(matches!(Binaries::parse("3"), Err(Error::InvalidLockfile(_))));
}
