use bun2nix::package::binaries::short_name_of;
use bun2nix::{Binaries, Error, Extracted, Identifier, Package};

#[test]
fn unscoped_npm_url() {
    let url = Identifier::to_npm_url("left-pad@1.3.0").unwrap();
    assert_eq!(url, "https://registry.npmjs.org/left-pad/-/left-pad-1.3.0.tgz");
}

#[test]
fn scoped_npm_url() {
    let url = Identifier::Npm("@alloc/quick-lru@5.2.0".to_owned()).to_url().unwrap();
    assert_eq!(url, "https://registry.npmjs.org/@alloc/quick-lru/-/quick-lru-5.2.0.tgz");
}

#[test]
fn http_url_is_all_after_the_first_at() {
    let url = Identifier::Git("lodash@github:lodash/lodash#8a26eb4".to_owned()).to_url().unwrap();
    assert_eq!(url, "github:lodash/lodash#8a26eb4");
    let url = Identifier::to_http_url("a@https://x.org/a@2.tgz").unwrap();
    assert_eq!(url, "https://x.org/a@2.tgz");
}

#[test]
fn no_at_fails_for_every_variant() {
    for id in [
        Identifier::Npm("left-pad".to_owned()),
        Identifier::Npm("@scope/left-pad".to_owned()),
        Identifier::Workspace("app".to_owned()),
        Identifier::Git("github:a/b".to_owned()),
        Identifier::Tarball("https://x.org/a.tgz".to_owned()),
    ] {
        assert!(matches!(id.to_url(), Err(Error::NoAtInPackageIdentifier)));
    }
}

#[test]
fn short_name_drops_the_scope() {
    assert_eq!(short_name_of("@alloc/quick-lru"), "quick-lru");
    assert_eq!(short_name_of("foo"), "foo");
}

#[test]
fn binaries_normalize() {
    assert!(Binaries::Absent.normalize("foo").0.is_empty());
    assert_eq!(
        Binaries::Unnamed("x".to_owned()).normalize("foo").0,
        vec![("foo".to_owned(), "x".to_owned())]
    );
    assert_eq!(
        Binaries::Unnamed("bin/cli.js".to_owned()).normalize("@scope/tool").0,
        vec![("tool".to_owned(), "bin/cli.js".to_owned())]
    );
    let named = vec![("a".to_owned(), "a.js".to_owned()), ("b".to_owned(), "b.js".to_owned())];
    assert_eq!(Binaries::Named(named.clone()).normalize("foo").0, named);
}

#[test]
fn normalize_builds_path_url_and_binaries() {
    let pkg: Package<Extracted> = Package::new(
        "@alloc/quick-lru".to_owned(),
        Identifier::Npm("@alloc/quick-lru@5.2.0".to_owned()),
        Some("sha512-abc".to_owned()),
        Binaries::Unnamed("cli.js".to_owned()),
    );
    let normalized = pkg.normalize().unwrap();
    assert_eq!(normalized.name, "@alloc/quick-lru");
    assert_eq!(normalized.hash.as_deref(), Some("sha512-abc"));
    assert_eq!(normalized.data.out_path, "node_modules/@alloc/quick-lru");
    assert_eq!(
        normalized.data.url,
        "https://registry.npmjs.org/@alloc/quick-lru/-/quick-lru-5.2.0.tgz"
    );
    assert_eq!(
        normalized.data.binaries.0,
        vec![("quick-lru".to_owned(), "cli.js".to_owned())]
    );
}

#[test]
fn normalize_fails_without_url() {
    let pkg = Package::new(
        "app".to_owned(),
        Identifier::Workspace("app".to_owned()),
        None,
        Binaries::Absent,
    );
    assert!(matches!(pkg.normalize(), Err(Error::NoAtInPackageIdentifier)));
}
