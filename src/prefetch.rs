//! Packages whose content hash is known, and the checks on those hashes

use vstd::prelude::*;

use crate::error::{Error, Result};
use crate::json::{lookup, parse_jsonc, spec_lookup, Json};
use crate::package::binaries::BinariesView;
use crate::package::{Binaries, Extracted, Package};
use crate::text::{
    count_char, count_chars, is_last_index, lemma_last_index, rfind_char, split_once,
    split_once_str,
};

verus! {

/// # Prefetched Package
///
/// A package together with the url it is fetched from and the hash of what
/// is fetched there.
#[derive(Debug)]
pub struct PrefetchedPackage {
    /// The prefetched hash of the package
    pub hash: String,
    /// The url to fetch the package from
    pub url: String,
    /// The identifier of the package, as `name@version`
    pub name: String,
    /// The executables the package declares
    pub binaries: Binaries,
}

impl Default for PrefetchedPackage {
    fn default() -> (r: Self)
        ensures
            r.hash@ == Seq::<char>::empty(),
            r.url@ == Seq::<char>::empty(),
            r.name@ == Seq::<char>::empty(),
            r.binaries is Absent,
    {
        PrefetchedPackage {
            hash: String::new(),
            url: String::new(),
            name: String::new(),
            binaries: Binaries::Absent,
        }
    }
}

impl PrefetchedPackage {
    /// What the record holds, as strings: name, url, hash and executables.
    pub open spec fn spec_record(&self) -> (Seq<char>, Seq<char>, Seq<char>, BinariesView) {
        (self.name@, self.url@, self.hash@, self.binaries@)
    }

    /// A copy of this package.
    pub fn duplicate(&self) -> (r: PrefetchedPackage)
        ensures
            r.spec_record() == self.spec_record(),
    {
        PrefetchedPackage {
            hash: self.hash.clone(),
            url: self.url.clone(),
            name: self.name.clone(),
            binaries: self.binaries.duplicate(),
        }
    }
}

/// Whether `c` is a character of the standard base64 alphabet (padding aside).
pub open spec fn is_base64_char(c: char) -> bool {
    ('A' <= c && c <= 'Z') || ('a' <= c && c <= 'z') || ('0' <= c && c <= '9') || c == '+'
        || c == '/'
}

/// Whether `h` is a sha256 hash in SRI form: `sha256-`, then the base64
/// encoding of 32 bytes (43 characters and one `=`), 51 characters in all.
pub open spec fn is_sri_sha256(h: Seq<char>) -> bool {
    &&& h.len() == 51
    &&& h.subrange(0, 7) == "sha256-"@
    &&& forall|i: int| 7 <= i < 50 ==> is_base64_char(#[trigger] h[i])
    &&& h[50] == '='
}

/// Whether `hash` is a sha256 hash in SRI form.
pub fn is_sri_sha256_hash(hash: &str) -> (r: bool)
    ensures
        r == is_sri_sha256(hash@),
{
    proof {
        reveal_strlit("sha256-");
    }
    let n = hash.unicode_len();
    if n != 51 {
        return false;
    }
    let prefix = "sha256-";
    let mut i: usize = 0;
    while i < 7
        invariant
            n == hash@.len() == 51,
            prefix@ == "sha256-"@,
            prefix@.len() == 7,
            i <= 7,
            forall|j: int| 0 <= j < i ==> hash@[j] == prefix@[j],
        decreases 7 - i,
    {
        if hash.get_char(i) != prefix.get_char(i) {
            assert(hash@.subrange(0, 7)[i as int] != "sha256-"@[i as int]);
            return false;
        }
        i = i + 1;
    }
    assert(hash@.subrange(0, 7) =~= "sha256-"@);
    while i < 50
        invariant
            n == hash@.len() == 51,
            7 <= i <= 50,
            forall|j: int| 7 <= j < i ==> is_base64_char(#[trigger] hash@[j]),
        decreases 50 - i,
    {
        let c = hash.get_char(i);
        if !(('A' <= c && c <= 'Z') || ('a' <= c && c <= 'z') || ('0' <= c && c <= '9') || c
            == '+' || c == '/') {
            return false;
        }
        i = i + 1;
    }
    hash.get_char(50) == '='
}

/// What comes before the last `c` in `s`, or all of `s` when there is none.
pub open spec fn before_last(s: Seq<char>, c: char) -> Seq<char> {
    if exists|i: int| is_last_index(s, c, i) {
        s.subrange(0, crate::text::last_index(s, c))
    } else {
        s
    }
}

/// A package identifier without its version: all before its one `@`, or
/// before the last of two (the first then opens a scope). No other count of
/// `@` has a version to strip.
pub open spec fn name_without_version(name: Seq<char>) -> Option<Seq<char>> {
    let n = count_char(name, '@');
    if n == 1 {
        match split_once(name, '@') {
            Some((before, _)) => Some(before),
            None => None,
        }
    } else if n == 2 {
        Some(before_last(name, '@'))
    } else {
        None
    }
}

impl PrefetchedPackage {
    /// The package's name without its version: `quick-lru` for
    /// `quick-lru@5.2.0`, `@alloc/quick-lru` for `@alloc/quick-lru@5.2.0`.
    pub fn get_name_strip_version(&self) -> (r: Result<String>)
        ensures
            match name_without_version(self.name@) {
                Some(n) => r is Ok && r->Ok_0@ == n,
                None => r == Err::<String, Error>(Error::NoAtInPackageIdentifier),
            },
    {
        let count = count_chars(self.name.as_str(), '@');
        if count == 1 {
            match split_once_str(self.name.as_str(), '@') {
                Some((before, _)) => Ok(before),
                None => Err(Error::NoAtInPackageIdentifier),
            }
        } else if count == 2 {
            match rfind_char(self.name.as_str(), '@') {
                Some(i) => {
                    proof {
                        lemma_last_index(self.name@, '@', i as int);
                    }
                    Ok(self.name.as_str().substring_char(0, i).to_owned())
                },
                None => Ok(self.name.clone()),
            }
        } else {
            Err(Error::NoAtInPackageIdentifier)
        }
    }
}

/// Whether some package of `ps` has the identity of `p`.
pub open spec fn has_identity(ps: Seq<Package<Extracted>>, p: Package<Extracted>) -> bool {
    exists|i: int| 0 <= i < ps.len() && (#[trigger] ps[i]).spec_identity() == p.spec_identity()
}

/// Whether no two packages of `ps` share an identity.
pub open spec fn identities_unique(ps: Seq<Package<Extracted>>) -> bool {
    forall|i: int, j: int|
        0 <= i < ps.len() && 0 <= j < ps.len() && i != j ==> (#[trigger] ps[i]).spec_identity()
            != (#[trigger] ps[j]).spec_identity()
}

/// `unique` keeps one package of each identity of `packages`: its packages
/// are packages of `packages`, no two share an identity, and every identity of
/// `packages` is among them.
pub open spec fn is_dedup_of(unique: Seq<Package<Extracted>>, packages: Seq<Package<Extracted>>) -> bool {
    &&& identities_unique(unique)
    &&& forall|i: int| 0 <= i < packages.len() ==> has_identity(unique, #[trigger] packages[i])
    &&& forall|k: int| 0 <= k < unique.len() ==> packages.contains(#[trigger] unique[k])
}

/// # Deduplicate packages
///
/// Keeps one package of each identity (name and identifier): entries that
/// differ only in hash or metadata collapse into one.
pub fn dedup_packages(packages: Vec<Package<Extracted>>) -> (r: Vec<Package<Extracted>>)
    ensures
        is_dedup_of(r@, packages@),
{
    let ghost input = packages@;
    let ghost original = packages;
    let mut rest = packages;
    let mut unique: Vec<Package<Extracted>> = Vec::new();
    while rest.len() > 0
        invariant
            input == original@,
            rest@.len() <= input.len(),
            rest@ == input.subrange(0, rest@.len() as int),
            identities_unique(unique@),
            forall|i: int|
                rest@.len() <= i < input.len() ==> has_identity(unique@, #[trigger] input[i]),
            forall|k: int|
                0 <= k < unique@.len() ==> exists|i: int|
                    0 <= i < input.len() && input[i] == #[trigger] unique@[k],
        decreases rest@.len(),
    {
        let ghost old_rest = rest@;
        let p = rest.pop().unwrap();
        let ghost at = rest@.len() as int;
        assert(old_rest[at] == p);
        assert(input[at] == p);
        let mut seen = false;
        let mut j: usize = 0;
        while j < unique.len()
            invariant
                j <= unique@.len(),
                seen ==> has_identity(unique@, p),
                !seen ==> forall|k: int|
                    0 <= k < j ==> (#[trigger] unique@[k]).spec_identity() != p.spec_identity(),
            decreases unique@.len() - j,
        {
            if unique[j].same_identity(&p) {
                seen = true;
            }
            j = j + 1;
        }
        if !seen {
            let ghost before = unique@;
            unique.push(p);
            proof {
                assert forall|i: int|
                    rest@.len() <= i < input.len() implies has_identity(
                    unique@,
                    #[trigger] input[i],
                ) by {
                    if i == at {
                        assert(unique@[before.len() as int] == input[i]);
                    } else {
                        let w = choose|w: int|
                            0 <= w < before.len() && (#[trigger] before[w]).spec_identity()
                                == input[i].spec_identity();
                        assert(unique@[w] == before[w]);
                    }
                }
                assert forall|k: int| 0 <= k < unique@.len() implies exists|i: int|
                    0 <= i < input.len() && input[i] == #[trigger] unique@[k] by {
                    if k == before.len() {
                        assert(input[at] == unique@[k]);
                    } else {
                        assert(unique@[k] == before[k]);
                    }
                }
            }
        }
    }
    assert forall|k: int| 0 <= k < unique@.len() implies packages@.contains(
        #[trigger] unique@[k],
    ) by {
        let i = choose|i: int| 0 <= i < input.len() && input[i] == #[trigger] unique@[k];
        assert(packages@[i] == unique@[k]);
    }
    unique
}

/// What to do for one package: reuse what the cache holds, or fetch it
#[derive(Debug)]
pub enum PrefetchStep {
    /// The cache holds this record for the package
    Cached(PrefetchedPackage),
    /// The package is to be fetched from `url`, and recorded under `name`
    /// with its executables
    Fetch { name: String, url: String, binaries: Binaries },
}

impl PrefetchStep {
    /// Whether this step fetches.
    pub fn is_fetch(&self) -> (r: bool)
        ensures
            r == self is Fetch,
    {
        match self {
            PrefetchStep::Cached(_) => false,
            PrefetchStep::Fetch { .. } => true,
        }
    }
}

/// The first record of `cache` named `name`.
pub open spec fn spec_cache_lookup(cache: Seq<PrefetchedPackage>, name: Seq<char>) -> Option<
    PrefetchedPackage,
>
    decreases cache.len(),
{
    if cache.len() == 0 {
        None
    } else if cache[0].name@ == name {
        Some(cache[0])
    } else {
        spec_cache_lookup(cache.drop_first(), name)
    }
}

/// The first record of `cache` named `name`.
pub fn cache_lookup<'a>(cache: &'a Vec<PrefetchedPackage>, name: &String) -> (r: Option<
    &'a PrefetchedPackage,
>)
    ensures
        match r {
            Some(rec) => spec_cache_lookup(cache@, name@) == Some(*rec),
            None => spec_cache_lookup(cache@, name@) is None,
        },
{
    let n = cache.len();
    let mut i: usize = 0;
    assert(cache@.subrange(0, n as int) =~= cache@);
    while i < n
        invariant
            n == cache@.len(),
            i <= n,
            spec_cache_lookup(cache@, name@) == spec_cache_lookup(
                cache@.subrange(i as int, n as int),
                name@,
            ),
        decreases n - i,
    {
        assert(cache@.subrange(i as int, n as int).drop_first() =~= cache@.subrange(
            i + 1,
            n as int,
        ));
        if cache[i].name == *name {
            assert(cache@.subrange(i as int, n as int)[0] == cache@[i as int]);
            return Some(&cache[i]);
        }
        i = i + 1;
    }
    None
}

/// Whether the step for `p` can be planned: a cached record must hold a
/// sha256 SRI hash, and a package to fetch must have a url.
pub open spec fn step_ok(p: Package<Extracted>, cache: Seq<PrefetchedPackage>) -> bool {
    match spec_cache_lookup(cache, p.identifier.spec_text()) {
        Some(rec) => is_sri_sha256(rec.hash@),
        None => p.identifier.spec_url() is Some,
    }
}

/// `s` is the step for `p`: the cached record under the package's identifier,
/// or else a fetch of its url.
pub open spec fn step_matches(s: PrefetchStep, p: Package<Extracted>, cache: Seq<PrefetchedPackage>) -> bool {
    match spec_cache_lookup(cache, p.identifier.spec_text()) {
        Some(rec) => s matches PrefetchStep::Cached(x) && x.spec_record() == rec.spec_record(),
        None => s matches PrefetchStep::Fetch { name, url, binaries } && name@
            == p.identifier.spec_text() && p.identifier.spec_url() == Some(url@) && binaries@
            == p.data.binaries@,
    }
}

/// `e` is the error planning the step for `p` gives: its cached record's hash
/// is not a sha256 SRI hash, or, uncached, it has no url.
pub open spec fn step_error(e: Error, p: Package<Extracted>, cache: Seq<PrefetchedPackage>) -> bool {
    match spec_cache_lookup(cache, p.identifier.spec_text()) {
        Some(rec) => !is_sri_sha256(rec.hash@) && (e matches Error::InvalidPrefetchHash(h) && h@
            == rec.hash@),
        None => p.identifier.spec_url() is None && e == Error::NoAtInPackageIdentifier,
    }
}

/// Whether every step of `ps` can be planned.
pub open spec fn steps_ok(ps: Seq<Package<Extracted>>, cache: Seq<PrefetchedPackage>) -> bool {
    forall|i: int| 0 <= i < ps.len() ==> step_ok(#[trigger] ps[i], cache)
}

/// `r` is the plan for `packages` against `cache`: a step for each package,
/// in order, or the error of the first package that cannot be planned.
pub open spec fn plan_result_matches(
    r: Result<Vec<PrefetchStep>>,
    packages: Seq<Package<Extracted>>,
    cache: Seq<PrefetchedPackage>,
) -> bool {
    match r {
        Ok(steps) => {
            &&& steps_ok(packages, cache)
            &&& steps@.len() == packages.len()
            &&& forall|i: int|
                0 <= i < packages.len() ==> step_matches(#[trigger] steps@[i], packages[i], cache)
        },
        Err(e) => exists|i: int|
            0 <= i < packages.len() && steps_ok(packages.subrange(0, i), cache) && step_error(
                e,
                #[trigger] packages[i],
                cache,
            ),
    }
}

/// # Plan the prefetch
///
/// For each package, in order, the record the cache holds under its
/// identifier, or else a fetch of its url. The cache is searched by
/// identifier, so a cached package is never fetched again. Fails at the first
/// package whose cached hash is not a sha256 SRI hash or that has no url.
pub fn plan_prefetch(packages: &Vec<Package<Extracted>>, cache: &Vec<PrefetchedPackage>) -> (r:
    Result<Vec<PrefetchStep>>)
    ensures
        plan_result_matches(r, packages@, cache@),
{
    let mut steps: Vec<PrefetchStep> = Vec::new();
    let n = packages.len();
    let mut i: usize = 0;
    while i < n
        invariant
            n == packages@.len(),
            i <= n,
            steps@.len() == i,
            steps_ok(packages@.subrange(0, i as int), cache@),
            forall|k: int|
                0 <= k < i ==> step_matches(#[trigger] steps@[k], packages@[k], cache@),
        decreases n - i,
    {
        let p = &packages[i];
        let name = p.identifier.text();
        let step = match cache_lookup(cache, name) {
            Some(rec) => {
                if !is_sri_sha256_hash(rec.hash.as_str()) {
                    return Err(Error::InvalidPrefetchHash(rec.hash.clone()));
                }
                PrefetchStep::Cached(rec.duplicate())
            },
            None => match p.identifier.to_url() {
                Ok(url) => PrefetchStep::Fetch {
                    name: name.clone(),
                    url,
                    binaries: p.data.binaries.duplicate(),
                },
                Err(e) => {
                    return Err(e);
                },
            },
        };
        steps.push(step);
        proof {
            let s = packages@.subrange(0, i + 1);
            assert forall|k: int| 0 <= k < s.len() implies step_ok(#[trigger] s[k], cache@) by {
                if k < i {
                    assert(s[k] == packages@.subrange(0, i as int)[k]);
                }
            }
        }
        i = i + 1;
    }
    assert(packages@.subrange(0, n as int) =~= packages@);
    Ok(steps)
}

/// Without a cache, planning succeeds exactly when every package has a url,
/// and then fetches every package, once each, from its url.
pub proof fn lemma_plan_without_cache(r: Result<Vec<PrefetchStep>>, packages: Seq<Package<Extracted>>)
    requires
        plan_result_matches(r, packages, Seq::empty()),
    ensures
        r is Ok <==> forall|i: int|
            0 <= i < packages.len() ==> (#[trigger] packages[i]).identifier.spec_url() is Some,
        r is Ok ==> forall|i: int|
            0 <= i < packages.len() ==> ((#[trigger] r->Ok_0@[i]) matches PrefetchStep::Fetch {
                url,
                ..
            } && packages[i].identifier.spec_url() == Some(url@)),
{
    let empty = Seq::<PrefetchedPackage>::empty();
    assert forall|t: Seq<char>| spec_cache_lookup(empty, t) is None by {}
    match r {
        Ok(steps) => {
            assert forall|i: int| 0 <= i < packages.len() implies (
            #[trigger] packages[i]).identifier.spec_url() is Some by {
                assert(step_ok(packages[i], empty));
            }
            assert forall|i: int| 0 <= i < packages.len() implies ((#[trigger] steps@[i]) matches PrefetchStep::Fetch {
                url,
                ..
            } && packages[i].identifier.spec_url() == Some(url@)) by {
                assert(step_matches(steps@[i], packages[i], empty));
            }
        },
        Err(e) => {
            let i = choose|i: int|
                0 <= i < packages.len() && steps_ok(packages.subrange(0, i), empty) && step_error(
                    e,
                    #[trigger] packages[i],
                    empty,
                );
            assert(packages[i].identifier.spec_url() is None);
        },
    }
}

/// A package whose identifier the cache holds a record under is not fetched:
/// its step reuses the record's url, hash and executables. Planning fails for
/// it only where the cached hash is not a sha256 SRI hash.
pub proof fn lemma_cached_not_fetched(
    r: Result<Vec<PrefetchStep>>,
    packages: Seq<Package<Extracted>>,
    cache: Seq<PrefetchedPackage>,
    i: int,
    rec: PrefetchedPackage,
)
    requires
        plan_result_matches(r, packages, cache),
        0 <= i < packages.len(),
        spec_cache_lookup(cache, packages[i].identifier.spec_text()) == Some(rec),
    ensures
        r is Ok ==> (r->Ok_0@[i] matches PrefetchStep::Cached(x) && x.spec_record()
            == rec.spec_record()),
        r is Err ==> exists|j: int|
            0 <= j < packages.len() && !step_ok(#[trigger] packages[j], cache),
{
    match r {
        Ok(steps) => {
            assert(step_matches(steps@[i], packages[i], cache));
        },
        Err(e) => {
            let j = choose|j: int|
                0 <= j < packages.len() && steps_ok(packages.subrange(0, j), cache) && step_error(
                    e,
                    #[trigger] packages[j],
                    cache,
                );
            assert(!step_ok(packages[j], cache));
        },
    }
}

/// `out` is the record of step `s`, where a fetch gave `hash`.
pub open spec fn record_matches(out: PrefetchedPackage, s: PrefetchStep, hash: Option<String>) -> bool {
    match s {
        PrefetchStep::Cached(rec) => out == rec,
        PrefetchStep::Fetch { name, url, binaries } => out.name@ == name@ && out.url@ == url@
            && hash is Some && out.hash@ == hash->0@ && out.binaries@ == binaries@,
    }
}

/// Whether the hash handed back for step `s` is good: a fetch needs a sha256
/// SRI hash; a cached record needs nothing.
pub open spec fn fetched_hash_ok(s: PrefetchStep, hash: Option<String>) -> bool {
    s is Fetch ==> hash is Some && is_sri_sha256(hash->0@)
}

/// `e` is the error of step `s` when its fetch gave `hash`: a hash that is not
/// a sha256 SRI hash is named; a missing one names the package.
pub open spec fn fetch_error_matches(e: Error, s: PrefetchStep, hash: Option<String>) -> bool {
    match s {
        PrefetchStep::Cached(_) => false,
        PrefetchStep::Fetch { name, .. } => match hash {
            Some(h) => !is_sri_sha256(h@) && (e matches Error::InvalidPrefetchHash(x) && x@ == h@),
            None => e matches Error::Prefetch(m) && m@ == name@,
        },
    }
}

/// # Finish the prefetch
///
/// Joins the planned steps with the hashes the fetches gave (`hashes[i]` for
/// `steps[i]`; ignored for a cached step) into one record per package. Fails
/// at the first fetch without a sha256 SRI hash.
pub fn finish_prefetch(steps: Vec<PrefetchStep>, hashes: Vec<Option<String>>) -> (r: Result<
    Vec<PrefetchedPackage>,
>)
    requires
        steps@.len() == hashes@.len(),
    ensures
        match r {
            Ok(records) => {
                &&& records@.len() == steps@.len()
                &&& forall|i: int|
                    0 <= i < steps@.len() ==> fetched_hash_ok(#[trigger] steps@[i], hashes@[i])
                        && record_matches(records@[i], steps@[i], hashes@[i])
            },
            Err(e) => exists|i: int|
                0 <= i < steps@.len() && (forall|k: int|
                    0 <= k < i ==> fetched_hash_ok(#[trigger] steps@[k], hashes@[k]))
                    && fetch_error_matches(e, #[trigger] steps@[i], hashes@[i]),
        },
{
    let ghost steps0 = steps@;
    let ghost hashes0 = hashes@;
    let mut records: Vec<PrefetchedPackage> = Vec::new();
    let mut pending = steps;
    let mut pending_hashes = hashes;
    let n = pending.len();
    let mut i: usize = 0;
    while i < n
        invariant
            steps0 == steps@,
            hashes0 == hashes@,
            n == steps0.len() == hashes0.len(),
            i <= n,
            pending@ == steps0.subrange(i as int, n as int),
            pending_hashes@ == hashes0.subrange(i as int, n as int),
            records@.len() == i,
            forall|k: int|
                0 <= k < i ==> fetched_hash_ok(#[trigger] steps0[k], hashes0[k]) && record_matches(
                    records@[k],
                    steps0[k],
                    hashes0[k],
                ),
        decreases n - i,
    {
        let step = pending.remove(0);
        let hash = pending_hashes.remove(0);
        assert(step == steps0[i as int]);
        assert(hash == hashes0[i as int]);
        assert(pending@ =~= steps0.subrange(i + 1, n as int));
        assert(pending_hashes@ =~= hashes0.subrange(i + 1, n as int));
        let record = match step {
            PrefetchStep::Cached(rec) => rec,
            PrefetchStep::Fetch { name, url, binaries } => match hash {
                Some(h) => {
                    if !is_sri_sha256_hash(h.as_str()) {
                        assert(fetch_error_matches(
                            Error::InvalidPrefetchHash(h),
                            steps0[i as int],
                            hashes0[i as int],
                        ));
                        return Err(Error::InvalidPrefetchHash(h));
                    }
                    PrefetchedPackage { name, url, hash: h, binaries }
                },
                None => {
                    assert(fetch_error_matches(
                        Error::Prefetch(name),
                        steps0[i as int],
                        hashes0[i as int],
                    ));
                    return Err(Error::Prefetch(name));
                },
            },
        };
        records.push(record);
        i = i + 1;
    }
    Ok(records)
}

/// The records of the steps that fetched, in order: what is new to a cache.
pub open spec fn fetched_records(
    steps: Seq<PrefetchStep>,
    records: Seq<PrefetchedPackage>,
) -> Seq<(Seq<char>, Seq<char>, Seq<char>, BinariesView)>
    decreases steps.len(),
{
    if steps.len() == 0 || records.len() != steps.len() {
        Seq::empty()
    } else {
        let before = fetched_records(steps.drop_last(), records.drop_last());
        if steps.last() is Fetch {
            before.push(records.last().spec_record())
        } else {
            before
        }
    }
}

/// # New records
///
/// Copies of the records whose step fetched (`records[i]` for `steps[i]`), in
/// order: the records a cache does not hold yet.
pub fn new_records(steps: &Vec<PrefetchStep>, records: &Vec<PrefetchedPackage>) -> (r: Vec<
    PrefetchedPackage,
>)
    requires
        steps@.len() == records@.len(),
    ensures
        r@.map_values(|p: PrefetchedPackage| p.spec_record()) == fetched_records(steps@, records@),
{
    let mut out: Vec<PrefetchedPackage> = Vec::new();
    let mut i: usize = 0;
    while i < steps.len()
        invariant
            steps@.len() == records@.len(),
            i <= steps@.len(),
            out@.map_values(|p: PrefetchedPackage| p.spec_record()) == fetched_records(
                steps@.subrange(0, i as int),
                records@.subrange(0, i as int),
            ),
        decreases steps@.len() - i,
    {
        let ghost before = out@;
        assert(steps@.subrange(0, i + 1).drop_last() =~= steps@.subrange(0, i as int));
        assert(records@.subrange(0, i + 1).drop_last() =~= records@.subrange(0, i as int));
        if steps[i].is_fetch() {
            out.push(records[i].duplicate());
            assert(out@.map_values(|p: PrefetchedPackage| p.spec_record()) =~= before.map_values(
                |p: PrefetchedPackage| p.spec_record(),
            ).push(records@[i as int].spec_record()));
        }
        i = i + 1;
    }
    assert(steps@.subrange(0, steps@.len() as int) =~= steps@);
    assert(records@.subrange(0, records@.len() as int) =~= records@);
    out
}

/// Reads the hash out of what `nix store prefetch-file --json` printed, once
/// parsed: the `hash` member of an object, which must be a sha256 SRI hash.
pub fn hash_from_prefetch_json(doc: &Json) -> (r: Result<String>)
    ensures
        match doc {
            Json::Object(members) => match spec_lookup(members@, "hash"@) {
                Some(Json::Str(h)) => if is_sri_sha256(h@) {
                    r is Ok && r->Ok_0@ == h@
                } else {
                    r is Err && (r->Err_0 matches Error::InvalidPrefetchHash(e) && e@ == h@)
                },
                _ => r is Err && r->Err_0 is Prefetch,
            },
            _ => r is Err && r->Err_0 is Prefetch,
        },
{
    let members = match doc {
        Json::Object(members) => members,
        _ => {
            return Err(Error::Prefetch(String::from_str("the prefetch output is not an object")));
        },
    };
    match lookup(members, "hash") {
        Some(Json::Str(h)) => {
            if is_sri_sha256_hash(h.as_str()) {
                Ok(h.clone())
            } else {
                Err(Error::InvalidPrefetchHash(h.clone()))
            }
        },
        _ => Err(Error::Prefetch(String::from_str("the prefetch output has no hash"))),
    }
}

/// Reads the hash out of what `nix store prefetch-file --json` printed.
pub fn parse_prefetch_output(stdout: &str) -> (r: Result<String>)
    ensures
        r is Ok ==> is_sri_sha256(r->Ok_0@),
        r is Err ==> r->Err_0 is Prefetch || r->Err_0 is InvalidPrefetchHash,
        stdout@.len() == 0 ==> r is Err,
{
    match parse_jsonc(stdout) {
        Ok(Some(doc)) => hash_from_prefetch_json(&doc),
        Ok(None) => Err(Error::Prefetch(String::from_str("the prefetch command printed nothing"))),
        Err(message) => Err(Error::Prefetch(message)),
    }
}

} // verus!
