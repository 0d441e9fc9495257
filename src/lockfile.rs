//! The bun lockfile: its model, and reading it from JSONC text

use vstd::prelude::*;

pub mod package_visitor;

use crate::error::{Error, Result};
use crate::json::{
    all_strings, lookup, parse_jsonc, parse_u8, spec_lookup, spec_parse_u8, string_pairs,
    to_string_pairs, Json,
};
use crate::package::binaries::pairs_view;
use crate::package::{Binaries, Extracted, Identifier};
use crate::prefetch::{
    dedup_packages, is_dedup_of, plan_prefetch, plan_result_matches, PrefetchStep,
    PrefetchedPackage,
};
use package_visitor::{opt_view, visit_result_matches, PackageVisitor};

verus! {

/// The one lockfile version this crate reads.
pub const SUPPORTED_LOCKFILE_VERSION: u8 = 1;

/// # Bun Lockfile
///
/// A model of the fields that exist in a bun lockfile
#[derive(Debug)]
pub struct Lockfile {
    /// The version field of the bun lockfile
    pub lockfile_version: u8,
    /// The workspaces declaration in the bun lockfile, by key
    pub workspaces: Vec<(String, Workspace)>,
    /// The list of all packages needed by the lockfile
    pub packages: Vec<crate::package::Package<Extracted>>,
}

/// A workspace of the project
#[derive(Debug)]
pub struct Workspace {
    /// The name of the workspace
    pub name: Option<String>,
    /// The workspace's dependencies, each with its version range
    pub dependencies: Vec<(String, String)>,
}

/// The metadata of a package entry
#[derive(Debug)]
pub struct MetaData {
    /// Peer dependencies by name, each with its version range
    pub peer_dependencies: Vec<(String, String)>,
    /// The names of the peer dependencies that are optional
    pub optional_peers: Vec<String>,
    /// The executables the package declares
    pub binaries: Binaries,
}

impl Default for MetaData {
    fn default() -> (r: Self)
        ensures
            r.peer_dependencies@.len() == 0,
            r.optional_peers@.len() == 0,
            r.binaries is Absent,
    {
        MetaData { peer_dependencies: Vec::new(), optional_peers: Vec::new(), binaries: Binaries::Absent }
    }
}

/// An npm entry of the lockfile, `[identifier, registry, metadata, integrity]`
#[derive(Debug)]
pub struct Package(pub String, pub String, pub MetaData, pub String);

impl Package {
    /// # NPM url converter
    ///
    /// Builds the registry url of the entry's identifier, such as
    /// `https://registry.npmjs.org/@alloc/quick-lru/-/quick-lru-5.2.0.tgz` for
    /// `@alloc/quick-lru@5.2.0`.
    pub fn to_npm_url(&self) -> (r: Result<String>)
        ensures
            crate::package::identifier::url_result_matches(
                r,
                crate::package::identifier::npm_url_of(self.0@),
            ),
    {
        Identifier::to_npm_url(self.0.as_str())
    }
}

/// What a `workspaces` member declares, if it is well formed: an object whose
/// `name` is absent or a string and whose `dependencies` are absent or an
/// object of strings.
pub open spec fn spec_workspace(value: Json) -> Option<(Option<Seq<char>>, Seq<(Seq<char>, Seq<char>)>)> {
    match value {
        Json::Object(members) => {
            let name = match spec_lookup(members@, "name"@) {
                None => Some(None::<Seq<char>>),
                Some(Json::Str(n)) => Some(Some(n@)),
                Some(_) => None,
            };
            let deps = match spec_lookup(members@, "dependencies"@) {
                None => Some(Seq::<(Seq<char>, Seq<char>)>::empty()),
                Some(Json::Object(ds)) => if all_strings(ds@) {
                    Some(string_pairs(ds@))
                } else {
                    None
                },
                Some(_) => None,
            };
            match (name, deps) {
                (Some(n), Some(d)) => Some((n, d)),
                _ => None,
            }
        },
        _ => None,
    }
}

/// Whether every workspace of `members` is well formed.
pub open spec fn workspaces_ok(members: Seq<(String, Json)>) -> bool {
    forall|i: int| 0 <= i < members.len() ==> spec_workspace(#[trigger] members[i].1) is Some
}

/// `ws` are the workspaces that `members` declare, in order.
pub open spec fn workspaces_match(ws: Seq<(String, Workspace)>, members: Seq<(String, Json)>) -> bool {
    &&& ws.len() == members.len()
    &&& forall|i: int|
        0 <= i < members.len() ==> {
            &&& (#[trigger] ws[i]).0@ == members[i].0@
            &&& Some((opt_view(ws[i].1.name), pairs_view(ws[i].1.dependencies@))) == spec_workspace(
                members[i].1,
            )
        }
}

/// The members of the document's `key` object: none where it is absent, and
/// `None` where it is not an object.
pub open spec fn spec_section(doc: Seq<(String, Json)>, key: Seq<char>) -> Option<Seq<(String, Json)>> {
    match spec_lookup(doc, key) {
        None => Some(Seq::empty()),
        Some(Json::Object(members)) => Some(members@),
        Some(_) => None,
    }
}

/// The lockfile version a document declares, if it declares one that fits in a byte.
pub open spec fn spec_version(doc: Json) -> Option<u8> {
    match doc {
        Json::Object(members) => match spec_lookup(members@, "lockfileVersion"@) {
            Some(Json::Number(text)) => spec_parse_u8(text@),
            _ => None,
        },
        _ => None,
    }
}

/// `r` is what reading the document `doc` as a lockfile gives. The version is
/// checked first; then the workspaces; then the packages, entry by entry.
pub open spec fn lockfile_result_matches(r: Result<Lockfile>, doc: Json) -> bool {
    match spec_version(doc) {
        None => r is Err && r->Err_0 is InvalidLockfile,
        Some(v) => {
            let members = doc->Object_0@;
            if v != SUPPORTED_LOCKFILE_VERSION {
                r == Err::<Lockfile, Error>(Error::UnsupportedLockfileVersion(v))
            } else {
                match (spec_section(members, "workspaces"@), spec_section(members, "packages"@)) {
                    (Some(ws), Some(ps)) => if !workspaces_ok(ws) {
                        r is Err && r->Err_0 is InvalidLockfile
                    } else {
                        match r {
                            Ok(lf) => {
                                &&& lf.lockfile_version == v
                                &&& workspaces_match(lf.workspaces@, ws)
                                &&& visit_result_matches(Ok(lf.packages), ps)
                            },
                            Err(e) => visit_result_matches(Err(e), ps),
                        }
                    },
                    _ => r is Err && r->Err_0 is InvalidLockfile,
                }
            }
        },
    }
}

/// `r` is what reading lockfile text gives: a JSONC error, no value, or what
/// reading the document that the parser gave as a lockfile gives.
pub open spec fn parsed_lockfile_matches(r: Result<Lockfile>) -> bool {
    ||| r is Err && r->Err_0 is ParseJsonc
    ||| r == Err::<Lockfile, Error>(Error::NoJsoncValue)
    ||| exists|doc: Json| lockfile_result_matches(r, doc)
}

impl Workspace {
    /// Reads one workspace declaration; `None` where it is malformed.
    pub fn from_json(value: &Json) -> (r: Option<Workspace>)
        ensures
            match spec_workspace(*value) {
                Some((n, d)) => r is Some && opt_view(r->0.name) == n && pairs_view(
                    r->0.dependencies@,
                ) == d,
                None => r is None,
            },
    {
        let members = match value {
            Json::Object(members) => members,
            _ => {
                return None;
            },
        };
        let name = match lookup(members, "name") {
            None => None,
            Some(Json::Str(n)) => Some(n.clone()),
            Some(_) => {
                return None;
            },
        };
        let dependencies = match lookup(members, "dependencies") {
            None => {
                let d: Vec<(String, String)> = Vec::new();
                assert(pairs_view(d@) =~= Seq::<(Seq<char>, Seq<char>)>::empty());
                d
            },
            Some(Json::Object(ds)) => match to_string_pairs(ds) {
                Some(pairs) => pairs,
                None => {
                    return None;
                },
            },
            Some(_) => {
                return None;
            },
        };
        Some(Workspace { name, dependencies })
    }
}

/// Reads every workspace declaration, in order; `None` where one is malformed.
fn read_workspaces(members: &Vec<(String, Json)>) -> (r: Option<Vec<(String, Workspace)>>)
    ensures
        match r {
            Some(ws) => workspaces_ok(members@) && workspaces_match(ws@, members@),
            None => !workspaces_ok(members@),
        },
{
    let mut ws: Vec<(String, Workspace)> = Vec::new();
    let n = members.len();
    let mut i: usize = 0;
    while i < n
        invariant
            n == members@.len(),
            i <= n,
            workspaces_ok(members@.subrange(0, i as int)),
            workspaces_match(ws@, members@.subrange(0, i as int)),
        decreases n - i,
    {
        match Workspace::from_json(&members[i].1) {
            Some(w) => {
                ws.push((members[i].0.clone(), w));
            },
            None => {
                return None;
            },
        }
        proof {
            let s = members@.subrange(0, i + 1);
            let p = members@.subrange(0, i as int);
            assert forall|k: int| 0 <= k < s.len() implies spec_workspace(
                #[trigger] s[k].1,
            ) is Some by {
                if k < i {
                    assert(s[k] == p[k]);
                }
            }
            assert forall|k: int| 0 <= k < s.len() implies {
                &&& (#[trigger] ws@[k]).0@ == s[k].0@
                &&& Some((opt_view(ws@[k].1.name), pairs_view(ws@[k].1.dependencies@)))
                    == spec_workspace(s[k].1)
            } by {
                if k < i {
                    assert(s[k] == p[k]);
                }
            }
        }
        i = i + 1;
    }
    assert(members@.subrange(0, n as int) =~= members@);
    Some(ws)
}

/// The members of the document's `key` object: none where it is absent, and
/// `None` where it is not an object.
fn section<'a>(doc: &'a Vec<(String, Json)>, key: &str, empty: &'a Vec<(String, Json)>) -> (r:
    Option<&'a Vec<(String, Json)>>)
    requires
        empty@.len() == 0,
    ensures
        match r {
            Some(members) => spec_section(doc@, key@) == Some(members@),
            None => spec_section(doc@, key@) is None,
        },
{
    match lookup(doc, key) {
        None => {
            assert(empty@ =~= Seq::<(String, Json)>::empty());
            Some(empty)
        },
        Some(Json::Object(members)) => Some(members),
        Some(_) => None,
    }
}

impl Lockfile {
    /// Reads a parsed document as a lockfile: checks its version, then reads
    /// its workspaces and its packages.
    pub fn from_json(doc: &Json) -> (r: Result<Lockfile>)
        ensures
            lockfile_result_matches(r, *doc),
    {
        let members = match doc {
            Json::Object(members) => members,
            _ => {
                return Err(Error::InvalidLockfile(String::from_str("the lockfile is not an object")));
            },
        };
        let version = match lookup(members, "lockfileVersion") {
            Some(Json::Number(text)) => match parse_u8(text.as_str()) {
                Some(v) => v,
                None => {
                    return Err(
                        Error::InvalidLockfile(
                            String::from_str("`lockfileVersion` is not a small whole number"),
                        ),
                    );
                },
            },
            _ => {
                return Err(
                    Error::InvalidLockfile(String::from_str("`lockfileVersion` is missing")),
                );
            },
        };
        if version != SUPPORTED_LOCKFILE_VERSION {
            return Err(Error::UnsupportedLockfileVersion(version));
        }
        let empty: Vec<(String, Json)> = Vec::new();
        let (ws_members, pkg_members) = match (
            section(members, "workspaces", &empty),
            section(members, "packages", &empty),
        ) {
            (Some(w), Some(p)) => (w, p),
            _ => {
                return Err(
                    Error::InvalidLockfile(
                        String::from_str("`workspaces` or `packages` is not an object"),
                    ),
                );
            },
        };
        let workspaces = match read_workspaces(ws_members) {
            Some(ws) => ws,
            None => {
                return Err(
                    Error::InvalidLockfile(String::from_str("a workspace is malformed")),
                );
            },
        };
        let packages = match PackageVisitor::visit_map(pkg_members) {
            Ok(p) => p,
            Err(e) => {
                return Err(e);
            },
        };
        Ok(Lockfile { lockfile_version: version, workspaces, packages })
    }

    /// # Prefetch packages
    ///
    /// Plans the prefetch of the lockfile's packages against the records of a
    /// cache: keeps one package of each identity, then for each of them reuses
    /// the cached record under its identifier or fetches its url.
    pub fn prefetch_packages(self, cache: &Vec<PrefetchedPackage>) -> (r: Result<
        Vec<PrefetchStep>,
    >)
        ensures
            exists|unique: Seq<crate::package::Package<Extracted>>|
                is_dedup_of(unique, self.packages@) && plan_result_matches(r, unique, cache@),
    {
        let unique = dedup_packages(self.packages);
        let r = plan_prefetch(&unique, cache);
        assert(is_dedup_of(unique@, self.packages@) && plan_result_matches(r, unique@, cache@));
        r
    }

    /// Parses lockfile text: JSON with comments, which must hold a value, read
    /// as a lockfile.
    pub fn parse(lockfile: &str) -> (r: Result<Lockfile>)
        ensures
            parsed_lockfile_matches(r),
            lockfile@.len() == 0 ==> r == Err::<Lockfile, Error>(Error::NoJsoncValue),
    {
        match parse_jsonc(lockfile) {
            Err(message) => Err(Error::ParseJsonc(message)),
            Ok(None) => Err(Error::NoJsoncValue),
            Ok(Some(doc)) => {
                let r = Self::from_json(&doc);
                assert(lockfile_result_matches(r, doc));
                r
            },
        }
    }
}

impl core::str::FromStr for Lockfile {
    type Err = Error;

    fn from_str(lockfile: &str) -> core::result::Result<Self, Self::Err> {
        Self::parse(lockfile)
    }
}

/// A document whose version is not the supported one is refused with an error
/// naming that version, whatever else it holds.
pub proof fn lemma_unsupported_version(doc: Json, r: Result<Lockfile>, v: u8)
    requires
        lockfile_result_matches(r, doc),
        spec_version(doc) == Some(v),
        v != SUPPORTED_LOCKFILE_VERSION,
    ensures
        r == Err::<Lockfile, Error>(Error::UnsupportedLockfileVersion(v)),
{
}

} // verus!
