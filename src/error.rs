//! Errors which may occur while converting a lockfile

use vstd::prelude::*;

verus! {

/// Errors which occur in `bun2nix`
#[derive(Debug)]
pub enum Error {
    /// The lockfile text is not valid JSONC; holds the parser's message
    ParseJsonc(String),
    /// The lockfile text holds no JSON value at all
    NoJsoncValue,
    /// The document does not have the shape of a lockfile; holds what is wrong
    InvalidLockfile(String),
    /// A package entry has the wrong number or kind of values; holds the package key
    InvalidPackageEntry(String),
    /// A workspace package whose identifier lacks `workspace:`; holds the package key
    InvalidWorkspaceIdentifier(String),
    /// An npm package whose integrity hash lacks `sha512-`; holds the package key
    InvalidIntegrityHash(String),
    /// A package identifier without the `@` between name and version
    NoAtInPackageIdentifier,
    /// A fetched or cached hash that is not a `sha256-` SRI hash; holds the hash
    InvalidPrefetchHash(String),
    /// The prefetch command could not be run or read; holds the cause
    Prefetch(String),
    /// The prefetch command failed; holds its standard error
    PrefetchStderr(String),
    /// The lockfile version is not one this crate reads
    UnsupportedLockfileVersion(u8),
    /// The package cache could not be opened, read or written; holds the cause
    Cache(String),
}

/// Result alias for errors which occur in `bun2nix`
pub type Result<T> = core::result::Result<T, Error>;

} // verus!
