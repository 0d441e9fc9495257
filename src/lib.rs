//! Converts a Bun text lockfile into a Nix expression that fetches and
//! assembles every package offline.
//!
//! The lockfile is read into packages (`lockfile`), each package's fetch url
//! is resolved from its identifier (`package`), a prefetch is planned against
//! a cache of known hashes and finished with the hashes of what was fetched
//! (`prefetch`), and the packages are written out in a fixed order
//! (`expression`).

pub mod error;
pub mod expression;
pub mod json;
pub mod lockfile;
pub mod package;
pub mod prefetch;
pub mod text;

pub use error::{Error, Result};
pub use expression::DumpNixExpression;
pub use package::{Binaries, Extracted, Identifier, Normalized, NormalizedBinary, Package};
pub use prefetch::PrefetchedPackage;
