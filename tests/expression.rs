use bun2nix::expression::{render_expression, sort_packages};
use bun2nix::lockfile::Lockfile;
use bun2nix::prefetch::{dedup_packages, finish_prefetch, plan_prefetch, PrefetchStep};
use bun2nix::{Binaries, DumpNixExpression, PrefetchedPackage};

#[test]
fn test_dump_nix_expression_file_single() {
    let output = PrefetchedPackage {
        hash: "sha256-w/Huz4+crTzdiSyQVAx0h3lhtTTrtPyKp3xpQD5EG9g=".to_owned(),
        url: "https://registry.npmjs.org/@alloc/quick-lru/-/quick-lru-5.2.0.tgz".to_owned(),
        name: "@alloc/quick-lru@5.2.0".to_owned(),
        binaries: Binaries::Absent,
    };

    let expected = 
"    {
      name = \"@alloc/quick-lru\";
      path = fetchurl {
        name = \"@alloc/quick-lru@5.2.0\";
        url  = \"https://registry.npmjs.org/@alloc/quick-lru/-/quick-lru-5.2.0.tgz\";
        hash = \"sha256-w/Huz4+crTzdiSyQVAx0h3lhtTTrtPyKp3xpQD5EG9g=\";
      };
    }";

    assert_eq!(expected.trim(), output.dump_nix_expression().trim());
}

#[test]
fn test_dump_nix_expression_file_vec() {
    let out = vec![
        PrefetchedPackage {
            hash: "sha256-w/Huz4+crTzdiSyQVAx0h3lhtTTrtPyKp3xpQD5EG9g=".to_owned(),
            url: "https://registry.npmjs.org/@alloc/quick-lru/-/quick-lru-5.2.0.tgz".to_owned(),
            name: "@alloc/quick-lru@5.2.0".to_owned(),
            binaries: Binaries::Absent,
        },
        PrefetchedPackage {
            hash: "sha256-w/Huz4+crTzdiSyQVAx0h3lhtTTrtPyKp3xpQD5EG9g=".to_owned(),
            url: "https://registry.npmjs.org/@alloc/quick-lru/-/quick-lru-5.2.0.tgz".to_owned(),
            name: "@alloc/quick-lru@5.2.0".to_owned(),
            binaries: Binaries::Absent,
        }
    ];

    let expected = 
"# This file was autogenerated by `bun2nix`, editing it is not recommended.
# Consume it with `callPackage` in your actual derivation -> https://nixos-and-flakes.thiscute.world/nixpkgs/callpackage
{
  fetchurl,
  gnutar,
  coreutils,
  runCommand,
  symlinkJoin,
}: let
  # Bun packages to install
  packages = [
    {
      name = \"@alloc/quick-lru\";
      path = fetchurl {
        name = \"@alloc/quick-lru@5.2.0\";
        url  = \"https://registry.npmjs.org/@alloc/quick-lru/-/quick-lru-5.2.0.tgz\";
        hash = \"sha256-w/Huz4+crTzdiSyQVAx0h3lhtTTrtPyKp3xpQD5EG9g=\";
      };
    }
    {
      name = \"@alloc/quick-lru\";
      path = fetchurl {
        name = \"@alloc/quick-lru@5.2.0\";
        url  = \"https://registry.npmjs.org/@alloc/quick-lru/-/quick-lru-5.2.0.tgz\";
        hash = \"sha256-w/Huz4+crTzdiSyQVAx0h3lhtTTrtPyKp3xpQD5EG9g=\";
      };
    }
  ];

  # Extract a package from a tar file
  extractPackage = pkg:
    runCommand \"bun2nix-extract-${pkg.name}\" {buildInputs = [gnutar coreutils];} ''
      mkdir -p $out/${pkg.name}
      tar -xzf ${pkg.path} -C $out/${pkg.name} --strip-components=1
    '';

  # Build the node modules directory
  nodeModules = symlinkJoin {
    name = \"node-modules\";
    paths = map extractPackage packages;
  };
in {
  inherit nodeModules packages;
}";

    assert_eq!(expected.trim(), out.dump_nix_expression().trim());
}

const HASH_A: &str = "sha256-w/Huz4+crTzdiSyQVAx0h3lhtTTrtPyKp3xpQD5EG9g=";
const HASH_B: &str = "sha256-AAAAAAAAAAAAAAAAAAAAAAAAAAAAAAAAAAAAAAAAAAA=";

fn record(name: &str, hash: &str) -> PrefetchedPackage {
    PrefetchedPackage {
        hash: hash.to_owned(),
        url: format!("https://example.org/{}.tgz", name),
        name: name.to_owned(),
        binaries: Binaries::Absent,
    }
}

#[test]
fn render_is_independent_of_order() {
    let first = render_expression(vec![
        record("b@1.0.0", HASH_A),
        record("a@2.0.0", HASH_B),
        record("c@3.0.0", HASH_A),
    ]);
    let second = render_expression(vec![
        record("c@3.0.0", HASH_A),
        record("b@1.0.0", HASH_A),
        record("a@2.0.0", HASH_B),
    ]);
    assert_eq!(first, second);
    let a = first.find("\"a@2.0.0\"").unwrap();
    let b = first.find("\"b@1.0.0\"").unwrap();
    let c = first.find("\"c@3.0.0\"").unwrap();
    assert!(a < b && b < c);
}

#[test]
fn sort_orders_by_name_then_url_then_hash() {
    let sorted = sort_packages(vec![
        record("b@1", HASH_A),
        record("a@1", HASH_A),
        record("a@1", HASH_B),
    ]);
    let names: Vec<(&str, &str)> = sorted.iter().map(|p| (p.name.as_str(), p.hash.as_str())).collect();
    assert_eq!(names, vec![("a@1", HASH_B), ("a@1", HASH_A), ("b@1", HASH_A)]);
}

fn is_sri_sha256_text(h: &str) -> bool {
    h.len() == 51
        && h.starts_with("sha256-")
        && h.ends_with('=')
        && h[7..50].chars().all(|c| c.is_ascii_alphanumeric() || c == '+' || c == '/')
}

#[test]
fn minimal_lockfile_end_to_end() {
    let text = r#"{
      "lockfileVersion": 1,
      "workspaces": { "": { "name": "minimal", "dependencies": { "quick-lru": "^5.2.0" } } },
      "packages": {
        "quick-lru": ["quick-lru@5.2.0", "", {}, "sha512-pF6Z8U2YtkWYyA1m46lM+Ih8CwUVGcC4nd6U2j4cpNNHSFLRsn5y8XsibKNjAb4UW4uMCl6wUx2iNTcBtCvtQ=="],
      }
    }"#;
    let lockfile = Lockfile::parse(text).unwrap();
    let unique = dedup_packages(lockfile.packages);
    let steps = plan_prefetch(&unique, &Vec::new()).unwrap();
    assert_eq!(steps.len(), 1);
    let hashes: Vec<Option<String>> = steps
        .iter()
        .map(|s| match s {
            PrefetchStep::Fetch { .. } => Some(HASH_A.to_owned()),
            PrefetchStep::Cached(_) => None,
        })
        .collect();
    let records = finish_prefetch(steps, hashes).unwrap();
    let nix = render_expression(records);

    assert_eq!(nix.matches("path = fetchurl {").count(), 1);
    assert_eq!(nix.matches("nodeModules = symlinkJoin {").count(), 1);
    assert!(nix.contains("paths = map extractPackage packages;"));
    assert!(nix.contains("url  = \"https://registry.npmjs.org/quick-lru/-/quick-lru-5.2.0.tgz\";"));
    let start = nix.find("hash = \"").unwrap() + "hash = \"".len();
    let end = start + nix[start..].find('"').unwrap();
    assert!(is_sri_sha256_text(&nix[start..end]));
}

#[test]
fn vec_dump_sorts_first() {
    let first = vec![record("b@1.0.0", HASH_A), record("a@2.0.0", HASH_B)].dump_nix_expression();
    let second = vec![record("a@2.0.0", HASH_B), record("b@1.0.0", HASH_A)].dump_nix_expression();
    assert_eq!(first, second);
    assert!(first.find("\"a@2.0.0\"").unwrap() < first.find("\"b@1.0.0\"").unwrap());
}
