use bun2nix::json::Json;
use bun2nix::prefetch::{
    dedup_packages, finish_prefetch, hash_from_prefetch_json, is_sri_sha256_hash,
    parse_prefetch_output, plan_prefetch, PrefetchStep,
};
use bun2nix::{Binaries, Error, Identifier, Package, PrefetchedPackage};

const HASH: &str = "sha256-w/Huz4+crTzdiSyQVAx0h3lhtTTrtPyKp3xpQD5EG9g=";

#[test]
fn test_get_name_strip_version() {
    let a = PrefetchedPackage {
        name: "quick-lru@5.2.0".to_owned(),
        ..Default::default()
    };

    assert_eq!(a.get_name_strip_version().unwrap(), "quick-lru");

    let b = PrefetchedPackage {
        name: "@alloc/quick-lru@5.2.0".to_owned(),
        ..Default::default()
    };

    assert_eq!(b.get_name_strip_version().unwrap(), "@alloc/quick-lru");
}

#[test]
fn strip_version_needs_one_or_two_ats() {
    let none = PrefetchedPackage { name: "quick-lru".to_owned(), ..Default::default() };
    assert!(matches!(none.get_name_strip_version(), Err(Error::NoAtInPackageIdentifier)));
    let three = PrefetchedPackage { name: "a@b@c@d".to_owned(), ..Default::default() };
    assert!(matches!(three.get_name_strip_version(), Err(Error::NoAtInPackageIdentifier)));
}

#[test]
fn sri_hash_shape() {
    assert!(is_sri_sha256_hash(HASH));
    assert_eq!(HASH.len(), 51);
    assert!(!is_sri_sha256_hash("sha512-w/Huz4+crTzdiSyQVAx0h3lhtTTrtPyKp3xpQD5EG9g="));
    assert!(!is_sri_sha256_hash("sha256-w/Huz4+crTzdiSyQVAx0h3lhtTTrtPyKp3xpQD5EG9g"));
    assert!(!is_sri_sha256_hash("sha256-w/Huz4+crTzdiSyQVAx0h3lhtTTrtPyKp3xpQD5EG9!="));
}

fn npm(name: &str, id: &str, hash: Option<&str>) -> Package<bun2nix::Extracted> {
    Package::new(
        name.to_owned(),
        Identifier::Npm(id.to_owned()),
        hash.map(|h| h.to_owned()),
        Binaries::Absent,
    )
}

#[test]
fn duplicates_collapse_to_one() {
    let packages = vec![
        npm("quick-lru", "quick-lru@5.2.0", Some("sha512-a")),
        npm("quick-lru", "quick-lru@5.2.0", None),
        npm("left-pad", "left-pad@1.3.0", None),
    ];
    let unique = dedup_packages(packages);
    assert_eq!(unique.len(), 2);
    assert_eq!(unique.iter().filter(|p| p.name == "quick-lru").count(), 1);
    assert_eq!(unique.iter().filter(|p| p.name == "left-pad").count(), 1);
}

#[test]
fn same_identifier_under_other_names_stays() {
    let packages = vec![
        npm("chalk", "chalk@4.1.0", None),
        npm("eslint/chalk", "chalk@4.1.0", None),
    ];
    assert_eq!(dedup_packages(packages).len(), 2);
}

#[test]
fn cached_package_is_not_fetched() {
    let packages = vec![
        npm("quick-lru", "quick-lru@5.2.0", None),
        npm("left-pad", "left-pad@1.3.0", None),
    ];
    let cache = vec![PrefetchedPackage {
        hash: HASH.to_owned(),
        url: "https://mirror.example/quick-lru.tgz".to_owned(),
        name: "quick-lru@5.2.0".to_owned(),
        binaries: Binaries::Named(vec![("lru".to_owned(), "bin/lru.js".to_owned())]),
    }];
    let steps = plan_prefetch(&packages, &cache).unwrap();
    assert_eq!(steps.len(), 2);
    match &steps[0] {
        PrefetchStep::Cached(rec) => {
            assert_eq!(rec.hash, HASH);
            assert!(matches!(&rec.binaries, Binaries::Named(n) if n.len() == 1));
            assert_eq!(rec.url, "https://mirror.example/quick-lru.tgz");
        }
        other => panic!("expected a cached step, got {:?}", other),
    }
    match &steps[1] {
        PrefetchStep::Fetch { name, url, binaries } => {
            assert!(matches!(binaries, Binaries::Absent));
            assert_eq!(name, "left-pad@1.3.0");
            assert_eq!(url, "https://registry.npmjs.org/left-pad/-/left-pad-1.3.0.tgz");
        }
        other => panic!("expected a fetch step, got {:?}", other),
    }
    assert!(!steps[0].is_fetch());
    assert!(steps[1].is_fetch());
}

#[test]
fn bad_cached_hash_is_an_integrity_error() {
    let packages = vec![npm("quick-lru", "quick-lru@5.2.0", None)];
    let cache = vec![PrefetchedPackage {
        hash: "sha256-short".to_owned(),
        url: "u".to_owned(),
        name: "quick-lru@5.2.0".to_owned(),
        binaries: Binaries::Named(vec![("lru".to_owned(), "bin/lru.js".to_owned())]),
    }];
    let err = plan_prefetch(&packages, &cache).unwrap_err();
    assert!(matches!(err, Error::InvalidPrefetchHash(h) if h == "sha256-short"));
}

#[test]
fn plan_fails_without_url() {
    let packages = vec![npm("broken", "broken", None)];
    let err = plan_prefetch(&packages, &Vec::new()).unwrap_err();
    assert!(matches!(err, Error::NoAtInPackageIdentifier));
}

#[test]
fn finish_joins_steps_and_hashes() {
    let steps = vec![
        PrefetchStep::Fetch {
            name: "left-pad@1.3.0".to_owned(),
            url: "u1".to_owned(),
            binaries: Binaries::Unnamed("cli.js".to_owned()),
        },
        PrefetchStep::Cached(PrefetchedPackage {
            hash: HASH.to_owned(),
            url: "u2".to_owned(),
            name: "quick-lru@5.2.0".to_owned(),
            binaries: Binaries::Named(vec![("lru".to_owned(), "bin/lru.js".to_owned())]),
        }),
    ];
    let records = finish_prefetch(steps, vec![Some(HASH.to_owned()), None]).unwrap();
    assert_eq!(records.len(), 2);
    assert_eq!(records[0].name, "left-pad@1.3.0");
    assert_eq!(records[0].url, "u1");
    assert_eq!(records[0].hash, HASH);
    assert!(matches!(&records[0].binaries, Binaries::Unnamed(p) if p == "cli.js"));
    assert_eq!(records[1].name, "quick-lru@5.2.0");
}

#[test]
fn finish_refuses_a_bad_fetched_hash() {
    let steps = vec![PrefetchStep::Fetch {
        name: "a@1".to_owned(),
        url: "u".to_owned(),
        binaries: Binaries::Absent,
    }];
    let err = finish_prefetch(steps, vec![Some("sha1-x".to_owned())]).unwrap_err();
    assert!(matches!(err, Error::InvalidPrefetchHash(h) if h == "sha1-x"));
    let steps = vec![PrefetchStep::Fetch {
        name: "a@1".to_owned(),
        url: "u".to_owned(),
        binaries: Binaries::Absent,
    }];
    let err = finish_prefetch(steps, vec![None]).unwrap_err();
    assert!(matches!(err, Error::Prefetch(_)));
}

#[test]
fn prefetch_output_hash() {
    let out = format!("{{\"hash\": \"{}\", \"storePath\": \"/nix/store/x\"}}", HASH);
    assert_eq!(parse_prefetch_output(&out).unwrap(), HASH);
    assert!(matches!(parse_prefetch_output(""), Err(Error::Prefetch(_))));
    assert!(matches!(
        parse_prefetch_output("{\"hash\": \"sha256-bad\"}"),
        Err(Error::InvalidPrefetchHash(_))
    ));
    let doc = Json::Object(vec![("storePath".to_owned(), Json::Str("/nix/store/x".to_owned()))]);
    assert!(matches!(hash_from_prefetch_json(&doc), Err(Error::Prefetch(_))));
}

#[test]
fn lockfile_prefetch_reuses_the_cache() {
    let text = r#"{ "lockfileVersion": 1, "packages": {
        "quick-lru": ["quick-lru@5.2.0", "", {}, "sha512-a"],
        "left-pad": ["left-pad@1.3.0", "", {}, "sha512-b"],
    } }"#;
    let lockfile = bun2nix::lockfile::Lockfile::parse(text).unwrap();
    let cache = vec![PrefetchedPackage {
        hash: HASH.to_owned(),
        url: "https://registry.npmjs.org/quick-lru/-/quick-lru-5.2.0.tgz".to_owned(),
        name: "quick-lru@5.2.0".to_owned(),
        binaries: Binaries::Named(vec![("lru".to_owned(), "bin/lru.js".to_owned())]),
    }];
    let steps = lockfile.prefetch_packages(&cache).unwrap();
    assert_eq!(steps.len(), 2);
    assert_eq!(steps.iter().filter(|s| s.is_fetch()).count(), 1);
    for step in &steps {
        match step {
            PrefetchStep::Cached(rec) => assert_eq!(rec.name, "quick-lru@5.2.0"),
            PrefetchStep::Fetch { name, .. } => assert_eq!(name, "left-pad@1.3.0"),
        }
    }
}

#[test]
fn new_records_are_the_fetched_ones() {
    let steps = vec![
        PrefetchStep::Fetch {
            name: "left-pad@1.3.0".to_owned(),
            url: "u1".to_owned(),
            binaries: Binaries::Absent,
        },
        PrefetchStep::Cached(PrefetchedPackage {
            hash: HASH.to_owned(),
            url: "u2".to_owned(),
            name: "quick-lru@5.2.0".to_owned(),
            binaries: Binaries::Absent,
        }),
    ];
    let records = vec![
        PrefetchedPackage {
            hash: HASH.to_owned(),
            url: "u1".to_owned(),
            name: "left-pad@1.3.0".to_owned(),
            binaries: Binaries::Absent,
        },
        PrefetchedPackage {
            hash: HASH.to_owned(),
            url: "u2".to_owned(),
            name: "quick-lru@5.2.0".to_owned(),
            binaries: Binaries::Absent,
        },
    ];
    let fresh = bun2nix::prefetch::new_records(&steps, &records);
    assert_eq!(fresh.len(), 1);
    assert_eq!(fresh[0].name, "left-pad@1.3.0");
}

#[test]
fn no_cache_fetches_every_package() {
    let packages = vec![
        npm("quick-lru", "quick-lru@5.2.0", None),
        npm("left-pad", "left-pad@1.3.0", None),
    ];
    let steps = plan_prefetch(&packages, &Vec::new()).unwrap();
    assert_eq!(steps.len(), 2);
    assert!(steps.iter().all(|s| s.is_fetch()));
}
