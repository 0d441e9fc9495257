//! Reading the `packages` member of a lockfile: each entry is an array whose
//! length tells what kind of package it describes.

use vstd::prelude::*;

use crate::error::{Error, Result};
use crate::json::{
    all_string_values, all_strings, lookup, parse_jsonc, spec_lookup, string_pairs, string_values,
    to_string_pairs, to_strings, Json,
};
use crate::lockfile::MetaData;
use crate::package::binaries::BinariesView;
use crate::package::{kind_of, Binaries, Extracted, Identifier, IdentifierKind, Package};
use crate::text::{contains_seq, contains_str};

verus! {

/// What an entry of the lockfile describes, as strings
pub struct ExtractedView {
    pub kind: IdentifierKind,
    pub identifier: Seq<char>,
    pub hash: Option<Seq<char>>,
    pub binaries: BinariesView,
}

/// What reading one entry of the lockfile gives
pub enum EntryView {
    /// A package
    Package(ExtractedView),
    /// The entry has the wrong number or kind of values
    BadShape,
    /// A workspace entry whose identifier lacks `workspace:`
    NoWorkspaceMarker,
    /// An npm entry whose integrity hash lacks `sha512-`
    NoSha512,
}

/// What the metadata of an entry holds, as strings
pub struct MetaDataView {
    pub peer_dependencies: Seq<(Seq<char>, Seq<char>)>,
    pub optional_peers: Seq<Seq<char>>,
    pub binaries: BinariesView,
}

/// The executables that a `bin` member declares, if it is well formed: absent
/// or null, a string, or an object of strings.
pub open spec fn spec_bin(bin: Option<Json>) -> Option<BinariesView> {
    match bin {
        None => Some(BinariesView::Absent),
        Some(Json::Null) => Some(BinariesView::Absent),
        Some(Json::Str(path)) => Some(BinariesView::Unnamed(path@)),
        Some(Json::Object(named)) => if all_strings(named@) {
            Some(BinariesView::Named(string_pairs(named@)))
        } else {
            None
        },
        Some(_) => None,
    }
}

/// The peer dependencies a `peerDependencies` member declares, if it is well
/// formed: absent, or an object of strings.
pub open spec fn spec_peer_dependencies(peers: Option<Json>) -> Option<Seq<(Seq<char>, Seq<char>)>> {
    match peers {
        None => Some(Seq::empty()),
        Some(Json::Object(ps)) => if all_strings(ps@) {
            Some(string_pairs(ps@))
        } else {
            None
        },
        Some(_) => None,
    }
}

/// The names an `optionalPeers` member declares, if it is well formed: absent,
/// or an array of strings.
pub open spec fn spec_optional_peers(optional: Option<Json>) -> Option<Seq<Seq<char>>> {
    match optional {
        None => Some(Seq::empty()),
        Some(Json::Array(vs)) => if all_string_values(vs@) {
            Some(string_values(vs@))
        } else {
            None
        },
        Some(_) => None,
    }
}

/// What a metadata value holds, if it is well formed: an object whose
/// `peerDependencies`, `optionalPeers` and `bin` members are well formed.
pub open spec fn spec_metadata(meta: Json) -> Option<MetaDataView> {
    match meta {
        Json::Object(members) => match (
            spec_peer_dependencies(spec_lookup(members@, "peerDependencies"@)),
            spec_optional_peers(spec_lookup(members@, "optionalPeers"@)),
            spec_bin(spec_lookup(members@, "bin"@)),
        ) {
            (Some(peer_dependencies), Some(optional_peers), Some(binaries)) => Some(
                MetaDataView { peer_dependencies, optional_peers, binaries },
            ),
            _ => None,
        },
        _ => None,
    }
}

/// The executables that a metadata value declares, if it is well formed.
pub open spec fn spec_metadata_binaries(meta: Json) -> Option<BinariesView> {
    match spec_metadata(meta) {
        Some(m) => Some(m.binaries),
        None => None,
    }
}

/// The package an entry with these values and these executables describes.
pub open spec fn with_binaries(
    kind: IdentifierKind,
    identifier: Seq<char>,
    hash: Option<Seq<char>>,
    binaries: Option<BinariesView>,
) -> EntryView {
    match binaries {
        Some(b) => EntryView::Package(ExtractedView { kind, identifier, hash, binaries: b }),
        None => EntryView::BadShape,
    }
}

/// What the value of one lockfile entry describes, by the length of its array:
/// `[identifier]` a workspace package, `[identifier, metadata]` a tarball,
/// `[identifier, metadata, revision]` a git package and
/// `[identifier, registry, metadata, integrity]` an npm package.
pub open spec fn spec_entry(value: Json) -> EntryView {
    match value {
        Json::Array(values) => {
            let vs = values@;
            if vs.len() == 1 {
                match vs[0] {
                    Json::Str(id) => if contains_seq(id@, "workspace:"@) {
                        EntryView::Package(
                            ExtractedView {
                                kind: IdentifierKind::Workspace,
                                identifier: id@,
                                hash: None,
                                binaries: BinariesView::Absent,
                            },
                        )
                    } else {
                        EntryView::NoWorkspaceMarker
                    },
                    _ => EntryView::BadShape,
                }
            } else if vs.len() == 2 {
                match vs[0] {
                    Json::Str(id) => with_binaries(
                        IdentifierKind::Tarball,
                        id@,
                        None,
                        spec_metadata_binaries(vs[1]),
                    ),
                    _ => EntryView::BadShape,
                }
            } else if vs.len() == 3 {
                match (vs[0], vs[2]) {
                    (Json::Str(id), Json::Str(rev)) => with_binaries(
                        IdentifierKind::Git,
                        id@,
                        Some(rev@),
                        spec_metadata_binaries(vs[1]),
                    ),
                    _ => EntryView::BadShape,
                }
            } else if vs.len() == 4 {
                match (vs[0], vs[3]) {
                    (Json::Str(id), Json::Str(integrity)) => match spec_metadata_binaries(vs[2]) {
                        None => EntryView::BadShape,
                        Some(b) => if contains_seq(integrity@, "sha512-"@) {
                            EntryView::Package(
                                ExtractedView {
                                    kind: IdentifierKind::Npm,
                                    identifier: id@,
                                    hash: Some(integrity@),
                                    binaries: b,
                                },
                            )
                        } else {
                            EntryView::NoSha512
                        },
                    },
                    _ => EntryView::BadShape,
                }
            } else {
                EntryView::BadShape
            }
        },
        _ => EntryView::BadShape,
    }
}

/// The view of an optional string.
pub open spec fn opt_view(s: Option<String>) -> Option<Seq<char>> {
    match s {
        Some(t) => Some(t@),
        None => None,
    }
}

/// `p` is the package named `key` that `v` describes.
pub open spec fn extracted_matches(p: Package<Extracted>, key: Seq<char>, v: ExtractedView) -> bool {
    &&& p.name@ == key
    &&& kind_of(&p.identifier) == v.kind
    &&& p.identifier.spec_text() == v.identifier
    &&& opt_view(p.hash) == v.hash
    &&& p.data.binaries@ == v.binaries
}

/// `e` is the error reading the entry named `key` gives, when it describes `v`.
pub open spec fn entry_error_matches(e: Error, key: Seq<char>, v: EntryView) -> bool {
    match v {
        EntryView::Package(_) => false,
        EntryView::BadShape => e matches Error::InvalidPackageEntry(k) && k@ == key,
        EntryView::NoWorkspaceMarker => e matches Error::InvalidWorkspaceIdentifier(k) && k@
            == key,
        EntryView::NoSha512 => e matches Error::InvalidIntegrityHash(k) && k@ == key,
    }
}

/// `r` is what reading the entry named `key` with value `value` gives.
pub open spec fn entry_result_matches(
    r: Result<Package<Extracted>>,
    key: Seq<char>,
    value: Json,
) -> bool {
    match spec_entry(value) {
        EntryView::Package(v) => r is Ok && extracted_matches(r->Ok_0, key, v),
        other => r is Err && entry_error_matches(r->Err_0, key, other),
    }
}

/// Whether every entry of `members` describes a package.
pub open spec fn entries_ok(members: Seq<(String, Json)>) -> bool {
    forall|i: int| 0 <= i < members.len() ==> spec_entry(#[trigger] members[i].1) is Package
}

/// `pkgs` are the packages that the entries `members` describe, in order.
pub open spec fn packages_match(pkgs: Seq<Package<Extracted>>, members: Seq<(String, Json)>) -> bool {
    &&& pkgs.len() == members.len()
    &&& forall|i: int|
        0 <= i < members.len() ==> extracted_matches(
            #[trigger] pkgs[i],
            members[i].0@,
            spec_entry(members[i].1)->Package_0,
        )
}

/// `e` is the error of the first entry of `members` that describes no package.
pub open spec fn first_entry_error(members: Seq<(String, Json)>, e: Error) -> bool {
    exists|i: int|
        0 <= i < members.len() && entries_ok(members.subrange(0, i)) && entry_error_matches(
            e,
            members[i].0@,
            #[trigger] spec_entry(members[i].1),
        )
}

/// `r` is what reading the entries `members` gives: all their packages, or
/// the error of the first entry that describes none.
pub open spec fn visit_result_matches(
    r: Result<Vec<Package<Extracted>>>,
    members: Seq<(String, Json)>,
) -> bool {
    match r {
        Ok(pkgs) => entries_ok(members) && packages_match(pkgs@, members),
        Err(e) => !entries_ok(members) && first_entry_error(members, e),
    }
}

/// # Package Visitor
///
/// Reads the entries of a lockfile's `packages` member into packages
pub struct PackageVisitor;

impl PackageVisitor {
    /// Reads every entry, in order, stopping at the first that is malformed.
    pub fn visit_map(members: &Vec<(String, Json)>) -> (r: Result<Vec<Package<Extracted>>>)
        ensures
            visit_result_matches(r, members@),
    {
        let mut packages: Vec<Package<Extracted>> = Vec::new();
        let n = members.len();
        let mut i: usize = 0;
        while i < n
            invariant
                n == members@.len(),
                i <= n,
                entries_ok(members@.subrange(0, i as int)),
                packages_match(packages@, members@.subrange(0, i as int)),
            decreases n - i,
        {
            let r = Self::deserialize_entry(members[i].0.clone(), &members[i].1);
            match r {
                Ok(pkg) => {
                    packages.push(pkg);
                    proof {
                        let s = members@.subrange(0, i + 1);
                        assert forall|k: int| 0 <= k < s.len() implies spec_entry(
                            #[trigger] s[k].1,
                        ) is Package by {
                            if k < i {
                                assert(s[k] == members@.subrange(0, i as int)[k]);
                            }
                        }
                        assert forall|k: int| 0 <= k < s.len() implies extracted_matches(
                            #[trigger] packages@[k],
                            s[k].0@,
                            spec_entry(s[k].1)->Package_0,
                        ) by {
                            if k < i {
                                assert(s[k] == members@.subrange(0, i as int)[k]);
                            }
                        }
                    }
                },
                Err(e) => {
                    proof {
                        assert(!(spec_entry(members@[i as int].1) is Package));
                        assert(first_entry_error(members@, e));
                    }
                    return Err(e);
                },
            }
            i = i + 1;
        }
        assert(members@.subrange(0, n as int) =~= members@);
        Ok(packages)
    }

    /// Reads one entry, by the length of its array.
    pub fn deserialize_entry(name: String, value: &Json) -> (r: Result<Package<Extracted>>)
        ensures
            entry_result_matches(r, name@, *value),
    {
        let values = match value {
            Json::Array(values) => values,
            _ => {
                return Err(Error::InvalidPackageEntry(name));
            },
        };
        let n = values.len();
        if n == 1 {
            Self::deserialize_workspace_package(name, values)
        } else if n == 2 {
            Self::deserialize_tarball_package(name, values)
        } else if n == 3 {
            Self::deserialize_git_package(name, values)
        } else if n == 4 {
            Self::deserialize_npm_package(name, values)
        } else {
            Err(Error::InvalidPackageEntry(name))
        }
    }

    /// Reads a workspace entry, `[identifier]`.
    pub fn deserialize_workspace_package(name: String, values: &Vec<Json>) -> (r: Result<
        Package<Extracted>,
    >)
        requires
            values@.len() == 1,
        ensures
            entry_result_matches(r, name@, Json::Array(*values)),
    {
        let identifier = match &values[0] {
            Json::Str(id) => id.clone(),
            _ => {
                return Err(Error::InvalidPackageEntry(name));
            },
        };
        if !contains_str(identifier.as_str(), "workspace:") {
            return Err(Error::InvalidWorkspaceIdentifier(name));
        }
        Ok(Package::new(name, Identifier::Workspace(identifier), None, Binaries::Absent))
    }

    /// Reads a tarball entry, `[identifier, metadata]`.
    pub fn deserialize_tarball_package(name: String, values: &Vec<Json>) -> (r: Result<
        Package<Extracted>,
    >)
        requires
            values@.len() == 2,
        ensures
            entry_result_matches(r, name@, Json::Array(*values)),
    {
        let identifier = match &values[0] {
            Json::Str(id) => id.clone(),
            _ => {
                return Err(Error::InvalidPackageEntry(name));
            },
        };
        let meta = match MetaData::from_json(&values[1]) {
            Some(meta) => meta,
            None => {
                return Err(Error::InvalidPackageEntry(name));
            },
        };
        Ok(Package::new(name, Identifier::Tarball(identifier), None, meta.binaries))
    }

    /// Reads a git entry, `[identifier, metadata, revision]`.
    pub fn deserialize_git_package(name: String, values: &Vec<Json>) -> (r: Result<
        Package<Extracted>,
    >)
        requires
            values@.len() == 3,
        ensures
            entry_result_matches(r, name@, Json::Array(*values)),
    {
        let (identifier, rev) = match (&values[0], &values[2]) {
            (Json::Str(id), Json::Str(rev)) => (id.clone(), rev.clone()),
            _ => {
                return Err(Error::InvalidPackageEntry(name));
            },
        };
        let meta = match MetaData::from_json(&values[1]) {
            Some(meta) => meta,
            None => {
                return Err(Error::InvalidPackageEntry(name));
            },
        };
        Ok(Package::new(name, Identifier::Git(identifier), Some(rev), meta.binaries))
    }

    /// Reads an npm entry, `[identifier, registry, metadata, integrity]`.
    pub fn deserialize_npm_package(name: String, values: &Vec<Json>) -> (r: Result<
        Package<Extracted>,
    >)
        requires
            values@.len() == 4,
        ensures
            entry_result_matches(r, name@, Json::Array(*values)),
    {
        let (identifier, hash) = match (&values[0], &values[3]) {
            (Json::Str(id), Json::Str(hash)) => (id.clone(), hash.clone()),
            _ => {
                return Err(Error::InvalidPackageEntry(name));
            },
        };
        let meta = match MetaData::from_json(&values[2]) {
            Some(meta) => meta,
            None => {
                return Err(Error::InvalidPackageEntry(name));
            },
        };
        if !contains_str(hash.as_str(), "sha512-") {
            return Err(Error::InvalidIntegrityHash(name));
        }
        Ok(Package::new(name, Identifier::Npm(identifier), Some(hash), meta.binaries))
    }
}

impl Binaries {
    /// Reads the executables a `bin` member declares, by the shape of its
    /// value; `None` where it is malformed.
    pub fn from_json(bin: Option<&Json>) -> (r: Option<Binaries>)
        ensures
            match spec_bin(
                match bin {
                    Some(j) => Some(*j),
                    None => None,
                },
            ) {
                Some(b) => r is Some && r->0@ == b,
                None => r is None,
            },
    {
        match bin {
            None => Some(Binaries::Absent),
            Some(Json::Null) => Some(Binaries::Absent),
            Some(Json::Str(path)) => Some(Binaries::Unnamed(path.clone())),
            Some(Json::Object(named)) => match to_string_pairs(named) {
                Some(pairs) => Some(Binaries::Named(pairs)),
                None => None,
            },
            Some(_) => None,
        }
    }

    /// Parses a `bin` value written as JSON text: a string, an object of
    /// strings, or null.
    pub fn parse(text: &str) -> (r: Result<Binaries>)
        ensures
            text@.len() == 0 ==> r == Err::<Binaries, Error>(Error::NoJsoncValue),
            r is Err ==> r->Err_0 is ParseJsonc || r->Err_0 is NoJsoncValue || r->Err_0 is InvalidLockfile,
    {
        match parse_jsonc(text) {
            Err(message) => Err(Error::ParseJsonc(message)),
            Ok(None) => Err(Error::NoJsoncValue),
            Ok(Some(value)) => match Binaries::from_json(Some(&value)) {
                Some(b) => Ok(b),
                None => Err(Error::InvalidLockfile(String::from_str("malformed executables"))),
            },
        }
    }
}

impl MetaData {
    /// What this metadata holds, as strings.
    pub open spec fn spec_view(&self) -> MetaDataView {
        MetaDataView {
            peer_dependencies: crate::package::binaries::pairs_view(self.peer_dependencies@),
            optional_peers: self.optional_peers@.map_values(|s: String| s@),
            binaries: self.binaries@,
        }
    }

    /// Reads the metadata of an entry; `None` where it is malformed.
    pub fn from_json(meta: &Json) -> (r: Option<MetaData>)
        ensures
            match spec_metadata(*meta) {
                Some(m) => r is Some && r->0.spec_view() == m,
                None => r is None,
            },
    {
        let members = match meta {
            Json::Object(members) => members,
            _ => {
                return None;
            },
        };
        let peer_dependencies = match lookup(members, "peerDependencies") {
            None => {
                let d: Vec<(String, String)> = Vec::new();
                assert(crate::package::binaries::pairs_view(d@) =~= Seq::<
                    (Seq<char>, Seq<char>),
                >::empty());
                d
            },
            Some(Json::Object(ps)) => match to_string_pairs(ps) {
                Some(pairs) => pairs,
                None => {
                    return None;
                },
            },
            Some(_) => {
                return None;
            },
        };
        let optional_peers = match lookup(members, "optionalPeers") {
            None => {
                let o: Vec<String> = Vec::new();
                assert(o@.map_values(|s: String| s@) =~= Seq::<Seq<char>>::empty());
                o
            },
            Some(Json::Array(vs)) => match to_strings(vs) {
                Some(strings) => strings,
                None => {
                    return None;
                },
            },
            Some(_) => {
                return None;
            },
        };
        let binaries = match Binaries::from_json(lookup(members, "bin")) {
            Some(b) => b,
            None => {
                return None;
            },
        };
        let r = MetaData { peer_dependencies, optional_peers, binaries };
        assert(r.spec_view() == spec_metadata(*meta)->0);
        Some(r)
    }
}

} // verus!
