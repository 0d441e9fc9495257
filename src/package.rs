//! The package type and its lifecycle, from extracted to normalized

use vstd::prelude::*;

pub mod binaries;
pub mod identifier;

pub use binaries::{Binaries, NormalizedBinary};
pub use identifier::Identifier;

use crate::error::Result;

verus! {

/// A stage of a package's lifecycle
pub trait State {

}

/// A package as read from the lockfile
#[derive(Debug)]
pub struct Extracted {
    /// The executables as the lockfile declares them
    pub binaries: Binaries,
}

/// A package ready to be written out
#[derive(Debug)]
pub struct Normalized {
    /// Where the package goes under the install root
    pub out_path: String,
    /// The url the package is fetched from
    pub url: String,
    /// The package's executables by name
    pub binaries: NormalizedBinary,
}

impl State for Extracted {

}

impl State for Normalized {

}

/// Where a package named `name` goes: its name, scope included, under
/// `node_modules/`.
pub open spec fn out_path_of(name: Seq<char>) -> Seq<char> {
    "node_modules/"@ + name
}

/// # Package
///
/// An individual package found in a bun lockfile.
#[derive(Debug)]
pub struct Package<D: State> {
    /// The prefetched package hash
    pub hash: Option<String>,
    /// The name of the package, as found in the `./node_modules` directory or
    /// in an import statement
    pub name: String,
    /// The package's identifier string for fetching
    pub identifier: Identifier,
    /// The state the package is currently in
    pub data: D,
}

impl<D: State> Package<D> {
    /// What makes two packages the same: name, identifier kind and identifier
    /// string. Hash and state data are not part of it.
    pub open spec fn spec_identity(&self) -> (Seq<char>, IdentifierKind, Seq<char>) {
        (self.name@, kind_of(&self.identifier), self.identifier.spec_text())
    }

    /// Whether the two packages have the same identity.
    pub fn same_identity<E: State>(&self, other: &Package<E>) -> (r: bool)
        ensures
            r == (self.spec_identity() == other.spec_identity()),
    {
        let same_kind = match (&self.identifier, &other.identifier) {
            (Identifier::Npm(_), Identifier::Npm(_)) => true,
            (Identifier::Workspace(_), Identifier::Workspace(_)) => true,
            (Identifier::Git(_), Identifier::Git(_)) => true,
            (Identifier::Tarball(_), Identifier::Tarball(_)) => true,
            _ => false,
        };
        same_kind && self.name == other.name && *self.identifier.text()
            == *other.identifier.text()
    }
}

/// The variant of an identifier, without its string
#[derive(PartialEq, Eq, Structural, Clone, Copy, Debug)]
pub enum IdentifierKind {
    /// An npm registry package
    Npm,
    /// A workspace package
    Workspace,
    /// A git package
    Git,
    /// A tarball package
    Tarball,
}

/// The variant of `id`.
pub open spec fn kind_of(id: &Identifier) -> IdentifierKind {
    match id {
        Identifier::Npm(_) => IdentifierKind::Npm,
        Identifier::Workspace(_) => IdentifierKind::Workspace,
        Identifier::Git(_) => IdentifierKind::Git,
        Identifier::Tarball(_) => IdentifierKind::Tarball,
    }
}

impl Package<Extracted> {
    /// # Package Constructor
    ///
    /// Produce a new instance of a just extracted package
    pub fn new(name: String, identifier: Identifier, hash: Option<String>, binaries: Binaries) -> (r:
        Self)
        ensures
            r.name == name,
            r.identifier == identifier,
            r.hash == hash,
            r.data.binaries == binaries,
    {
        Package { name, identifier, hash, data: Extracted { binaries } }
    }

    /// # Normalize Packages
    ///
    /// Consumes an extracted package and gives it its place under the install
    /// root, its url and its executables by name. Fails only where the
    /// identifier has no url.
    pub fn normalize(self) -> (r: Result<Package<Normalized>>)
        ensures
            match r {
                Ok(p) => {
                    &&& self.identifier.spec_url() == Some(p.data.url@)
                    &&& p.name == self.name
                    &&& p.identifier == self.identifier
                    &&& p.hash == self.hash
                    &&& p.data.out_path@ == out_path_of(self.name@)
                    &&& p.data.binaries@ == self.data.binaries.spec_normalize(self.name@)
                },
                Err(e) => {
                    &&& self.identifier.spec_url() is None
                    &&& e == crate::error::Error::NoAtInPackageIdentifier
                },
            },
    {
        let url = match self.identifier.to_url() {
            Ok(url) => url,
            Err(e) => {
                return Err(e);
            },
        };
        let mut out_path = String::from_str("node_modules/");
        out_path.append(self.name.as_str());
        let binaries = self.data.binaries.normalize(self.name.as_str());
        Ok(
            Package {
                data: Normalized { out_path, url, binaries },
                identifier: self.identifier,
                hash: self.hash,
                name: self.name,
            },
        )
    }
}

} // verus!
