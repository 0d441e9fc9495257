//! Package identifiers, and the urls their packages are fetched from

use vstd::prelude::*;

use crate::error::{Error, Result};
use crate::text::{has_char, lemma_split_once_concat, split_once, split_once_str};

verus! {

/// Where a package comes from, holding the identifier string of its lockfile entry
#[derive(Debug)]
pub enum Identifier {
    /// A package of the npm registry, as `name@version` or `@scope/name@version`
    Npm(String),
    /// A package of the project's own workspace, as `name@workspace:path`
    Workspace(String),
    /// A package fetched from git, as `name@url`
    Git(String),
    /// A package fetched as a tarball, as `name@url`
    Tarball(String),
}

/// The npm registry's tarball url of `name` at `version`, under the path
/// `scope_path` (which is `name` for an unscoped package and `scope/name` for
/// a scoped one).
pub open spec fn registry_tarball_url(
    scope_path: Seq<char>,
    name: Seq<char>,
    version: Seq<char>,
) -> Seq<char> {
    "https://registry.npmjs.org/"@ + scope_path + "/-/"@ + name + "-"@ + version + ".tgz"@
}

/// The url of an npm identifier: the part before its first `/` is a scope,
/// if there is a `/`, and the first `@` after that parts name from version.
pub open spec fn npm_url_of(id: Seq<char>) -> Option<Seq<char>> {
    match split_once(id, '/') {
        None => match split_once(id, '@') {
            Some((name, version)) => Some(registry_tarball_url(name, name, version)),
            None => None,
        },
        Some((scope, rest)) => match split_once(rest, '@') {
            Some((name, version)) => Some(
                registry_tarball_url(scope + "/"@ + name, name, version),
            ),
            None => None,
        },
    }
}

/// The url of a workspace, git or tarball identifier: all after its first `@`.
pub open spec fn http_url_of(id: Seq<char>) -> Option<Seq<char>> {
    match split_once(id, '@') {
        Some((_, url)) => Some(url),
        None => None,
    }
}

/// The result of turning an optional url into a `Result`.
pub open spec fn url_result_matches(r: Result<String>, url: Option<Seq<char>>) -> bool {
    match url {
        Some(u) => r is Ok && r->Ok_0@ == u,
        None => r == Err::<String, Error>(Error::NoAtInPackageIdentifier),
    }
}

impl Identifier {
    /// The identifier string the variant holds.
    pub open spec fn spec_text(&self) -> Seq<char> {
        match self {
            Identifier::Npm(s) => s@,
            Identifier::Workspace(s) => s@,
            Identifier::Git(s) => s@,
            Identifier::Tarball(s) => s@,
        }
    }

    /// The url the package is fetched from, if the identifier has one.
    pub open spec fn spec_url(&self) -> Option<Seq<char>> {
        match self {
            Identifier::Npm(s) => npm_url_of(s@),
            _ => http_url_of(self.spec_text()),
        }
    }

    /// The identifier string the variant holds.
    pub fn text(&self) -> (r: &String)
        ensures
            r@ == self.spec_text(),
    {
        match self {
            Identifier::Npm(s) => s,
            Identifier::Workspace(s) => s,
            Identifier::Git(s) => s,
            Identifier::Tarball(s) => s,
        }
    }

    /// A copy of this identifier.
    pub fn duplicate(&self) -> (r: Identifier)
        ensures
            r == *self,
    {
        match self {
            Identifier::Npm(s) => Identifier::Npm(s.clone()),
            Identifier::Workspace(s) => Identifier::Workspace(s.clone()),
            Identifier::Git(s) => Identifier::Git(s.clone()),
            Identifier::Tarball(s) => Identifier::Tarball(s.clone()),
        }
    }

    /// # NPM url converter
    ///
    /// Produces the registry url of an npm identifier such as
    /// `@alloc/quick-lru@5.2.0`, here
    /// `https://registry.npmjs.org/@alloc/quick-lru/-/quick-lru-5.2.0.tgz`.
    pub fn to_npm_url(npm_identifier: &str) -> (r: Result<String>)
        ensures
            url_result_matches(r, npm_url_of(npm_identifier@)),
    {
        match split_once_str(npm_identifier, '/') {
            None => match split_once_str(npm_identifier, '@') {
                Some((name, version)) => {
                    let mut url = String::from_str("https://registry.npmjs.org/");
                    url.append(name.as_str());
                    url.append("/-/");
                    url.append(name.as_str());
                    url.append("-");
                    url.append(version.as_str());
                    url.append(".tgz");
                    Ok(url)
                },
                None => Err(Error::NoAtInPackageIdentifier),
            },
            Some((scope, rest)) => match split_once_str(rest.as_str(), '@') {
                Some((name, version)) => {
                    let mut url = String::from_str("https://registry.npmjs.org/");
                    url.append(scope.as_str());
                    url.append("/");
                    url.append(name.as_str());
                    url.append("/-/");
                    url.append(name.as_str());
                    url.append("-");
                    url.append(version.as_str());
                    url.append(".tgz");
                    proof {
                        assert(url@ =~= registry_tarball_url(scope@ + "/"@ + name@, name@, version@));
                    }
                    Ok(url)
                },
                None => Err(Error::NoAtInPackageIdentifier),
            },
        }
    }

    /// # Http url converter
    ///
    /// Produces the url of a tarball, git or workspace identifier such as
    /// `lodash@github:lodash/lodash#8a26eb4`: everything after its first `@`.
    pub fn to_http_url(identifier: &str) -> (r: Result<String>)
        ensures
            url_result_matches(r, http_url_of(identifier@)),
    {
        match split_once_str(identifier, '@') {
            Some((_, url)) => Ok(url),
            None => Err(Error::NoAtInPackageIdentifier),
        }
    }

    /// The url the identified package is fetched from.
    pub fn to_url(&self) -> (r: Result<String>)
        ensures
            url_result_matches(r, self.spec_url()),
    {
        match self {
            Identifier::Npm(npm_identifier) => Self::to_npm_url(npm_identifier.as_str()),
            Identifier::Workspace(identifier) => Self::to_http_url(identifier.as_str()),
            Identifier::Tarball(identifier) => Self::to_http_url(identifier.as_str()),
            Identifier::Git(identifier) => Self::to_http_url(identifier.as_str()),
        }
    }
}

/// An unscoped npm identifier `name@version` resolves to
/// `https://registry.npmjs.org/{name}/-/{name}-{version}.tgz`.
pub proof fn lemma_unscoped_npm_url(name: Seq<char>, version: Seq<char>)
    requires
        !has_char(name, '@'),
        !has_char(name, '/'),
        !has_char(version, '/'),
    ensures
        npm_url_of(name + "@"@ + version) == Some(registry_tarball_url(name, name, version)),
{
    reveal_strlit("@");
    let id = name + "@"@ + version;
    assert(id =~= name + seq!['@'] + version);
    lemma_split_once_concat(name, '@', version);
    assert forall|i: int| 0 <= i < id.len() implies id[i] != '/' by {
        if i < name.len() {
            assert(id[i] == name[i]);
        } else if i > name.len() {
            assert(id[i] == version[i - name.len() - 1]);
        }
    }
    assert(!has_char(id, '/'));
}

/// A scoped npm identifier `{scope}/{name}@version` resolves to
/// `https://registry.npmjs.org/{scope}/{name}/-/{name}-{version}.tgz`.
pub proof fn lemma_scoped_npm_url(scope: Seq<char>, name: Seq<char>, version: Seq<char>)
    requires
        !has_char(scope, '/'),
        !has_char(name, '@'),
    ensures
        npm_url_of(scope + "/"@ + name + "@"@ + version) == Some(
            registry_tarball_url(scope + "/"@ + name, name, version),
        ),
{
    reveal_strlit("@");
    reveal_strlit("/");
    let rest = name + "@"@ + version;
    let id = scope + "/"@ + name + "@"@ + version;
    assert(id =~= scope + seq!['/'] + rest);
    assert(rest =~= name + seq!['@'] + version);
    lemma_split_once_concat(scope, '/', rest);
    lemma_split_once_concat(name, '@', version);
}

/// An identifier without `@` has no url, whatever its variant.
pub proof fn lemma_no_at_no_url(id: Identifier)
    requires
        !has_char(id.spec_text(), '@'),
    ensures
        id.spec_url() is None,
{
    let s = id.spec_text();
    if let Identifier::Npm(t) = id {
        match split_once(s, '/') {
            None => {},
            Some((scope, rest)) => {
                let i = crate::text::first_index(s, '/');
                assert(rest =~= s.subrange(i + 1, s.len() as int));
                assert forall|j: int| 0 <= j < rest.len() implies rest[j] != '@' by {
                    assert(rest[j] == s[i + 1 + j]);
                }
            },
        }
    }
}

} // verus!
