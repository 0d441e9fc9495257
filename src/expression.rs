//! Rendering prefetched packages as a Nix expression

use vstd::multiset::Multiset;
use vstd::prelude::*;

use crate::prefetch::{is_sri_sha256, name_without_version, PrefetchedPackage};

verus! {

/// The name a package is installed under: its name without version, or its
/// full name where no version can be stripped.
pub open spec fn install_name(name: Seq<char>) -> Seq<char> {
    match name_without_version(name) {
        Some(n) => n,
        None => name,
    }
}

/// The fetch block of one package.
pub open spec fn package_block(p: PrefetchedPackage) -> Seq<char> {
    "    {\n      name = \""@ + install_name(p.name@) + "\";\n      path = fetchurl {\n        name = \""@
        + p.name@ + "\";\n        url  = \""@ + p.url@ + "\";\n        hash = \""@ + p.hash@
        + "\";\n      };\n    }"@
}

/// The blocks of `ps`, one per line.
pub open spec fn joined_blocks(ps: Seq<PrefetchedPackage>) -> Seq<char>
    decreases ps.len(),
{
    if ps.len() == 0 {
        Seq::empty()
    } else if ps.len() == 1 {
        package_block(ps[0])
    } else {
        joined_blocks(ps.drop_last()) + "\n"@ + package_block(ps.last())
    }
}

/// The text before the package blocks.
pub open spec fn expression_head() -> Seq<char> {
    "# This file was autogenerated by `bun2nix`, editing it is not recommended.\n# Consume it with `callPackage` in your actual derivation -> https://nixos-and-flakes.thiscute.world/nixpkgs/callpackage\n{\n  fetchurl,\n  gnutar,\n  coreutils,\n  runCommand,\n  symlinkJoin,\n}: let\n  # Bun packages to install\n  packages = [\n"@
}

/// The text after the package blocks: the step that extracts every package
/// into one install root.
pub open spec fn expression_tail() -> Seq<char> {
    "\n  ];\n\n  # Extract a package from a tar file\n  extractPackage = pkg:\n    runCommand \"bun2nix-extract-${pkg.name}\" {buildInputs = [gnutar coreutils];} ''\n      mkdir -p $out/${pkg.name}\n      tar -xzf ${pkg.path} -C $out/${pkg.name} --strip-components=1\n    '';\n\n  # Build the node modules directory\n  nodeModules = symlinkJoin {\n    name = \"node-modules\";\n    paths = map extractPackage packages;\n  };\nin {\n  inherit nodeModules packages;\n}"@
}

/// # Nix Expression Conversion Trait
///
/// Implemented by anything that can be turned into a nix expression
pub trait DumpNixExpression {
    /// Whether `self` can be written out (every hash it holds is a sha256 SRI hash).
    spec fn spec_dumpable(&self) -> bool;

    /// Whether `out` is the expression `self` is written out as.
    spec fn spec_is_expression(&self, out: Seq<char>) -> bool;

    /// # Dump Nix Expression
    ///
    /// Dumps `self` into a nix expression
    fn dump_nix_expression(&self) -> (r: String)
        requires
            self.spec_dumpable(),
        ensures
            self.spec_is_expression(r@),
    ;
}

impl DumpNixExpression for PrefetchedPackage {
    open spec fn spec_dumpable(&self) -> bool {
        is_sri_sha256(self.hash@)
    }

    open spec fn spec_is_expression(&self, out: Seq<char>) -> bool {
        out == package_block(*self)
    }

    fn dump_nix_expression(&self) -> (r: String) {
        let install = match self.get_name_strip_version() {
            Ok(n) => n,
            Err(_) => self.name.clone(),
        };
        let mut out = String::from_str("    {\n      name = \"");
        out.append(install.as_str());
        out.append("\";\n      path = fetchurl {\n        name = \"");
        out.append(self.name.as_str());
        out.append("\";\n        url  = \"");
        out.append(self.url.as_str());
        out.append("\";\n        hash = \"");
        out.append(self.hash.as_str());
        out.append("\";\n      };\n    }");
        out
    }
}

/// Whether every hash in `ps` is a sha256 SRI hash.
pub open spec fn all_dumpable(ps: Seq<PrefetchedPackage>) -> bool {
    forall|i: int| 0 <= i < ps.len() ==> is_sri_sha256(#[trigger] ps[i].hash@)
}

impl DumpNixExpression for Vec<PrefetchedPackage> {
    open spec fn spec_dumpable(&self) -> bool {
        all_dumpable(self@)
    }

    /// The packages are put in order by name, url and hash before they are
    /// written, so the text does not depend on the order they come in.
    open spec fn spec_is_expression(&self, out: Seq<char>) -> bool {
        rendered_from(out, self@)
    }

    fn dump_nix_expression(&self) -> (r: String) {
        let mut copy: Vec<PrefetchedPackage> = Vec::new();
        let mut i: usize = 0;
        while i < self.len()
            invariant
                all_dumpable(self@),
                i <= self@.len(),
                copy@.len() == i,
                forall|k: int|
                    0 <= k < i ==> (#[trigger] copy@[k]).spec_record() == self@[k].spec_record(),
            decreases self@.len() - i,
        {
            copy.push(self[i].duplicate());
            i = i + 1;
        }
        assert(keys_of(copy@) =~= keys_of(self@));
        render_expression(copy)
    }
}

/// Writes out the packages in the order given.
fn dump_in_order(packages: &Vec<PrefetchedPackage>) -> (r: String)
    requires
        all_dumpable(packages@),
    ensures
        r@ == expression_head() + joined_blocks(packages@) + expression_tail(),
{
    let mut out = String::from_str(
        "# This file was autogenerated by `bun2nix`, editing it is not recommended.\n# Consume it with `callPackage` in your actual derivation -> https://nixos-and-flakes.thiscute.world/nixpkgs/callpackage\n{\n  fetchurl,\n  gnutar,\n  coreutils,\n  runCommand,\n  symlinkJoin,\n}: let\n  # Bun packages to install\n  packages = [\n",
    );
    let mut i: usize = 0;
    while i < packages.len()
        invariant
            all_dumpable(packages@),
            i <= packages@.len(),
            out@ == expression_head() + joined_blocks(packages@.subrange(0, i as int)),
        decreases packages@.len() - i,
    {
        let ghost before = out@;
        assert(packages@.subrange(0, i + 1).drop_last() =~= packages@.subrange(0, i as int));
        if i > 0 {
            out.append("\n");
        }
        let block = packages[i].dump_nix_expression();
        out.append(block.as_str());
        proof {
            let s = packages@.subrange(0, i + 1);
            assert(s.last() == packages@[i as int]);
            if i == 0 {
                assert(packages@.subrange(0, 0) =~= Seq::<PrefetchedPackage>::empty());
                assert(out@ =~= expression_head() + joined_blocks(s));
            } else {
                assert(out@ =~= expression_head() + joined_blocks(s));
            }
        }
        i = i + 1;
    }
    assert(packages@.subrange(0, packages@.len() as int) =~= packages@);
    out.append(
        "\n  ];\n\n  # Extract a package from a tar file\n  extractPackage = pkg:\n    runCommand \"bun2nix-extract-${pkg.name}\" {buildInputs = [gnutar coreutils];} ''\n      mkdir -p $out/${pkg.name}\n      tar -xzf ${pkg.path} -C $out/${pkg.name} --strip-components=1\n    '';\n\n  # Build the node modules directory\n  nodeModules = symlinkJoin {\n    name = \"node-modules\";\n    paths = map extractPackage packages;\n  };\nin {\n  inherit nodeModules packages;\n}",
    );
    out
}

/// Lexicographic order on strings, by character.
pub open spec fn seq_le(a: Seq<char>, b: Seq<char>) -> bool
    decreases a.len(),
{
    if a.len() == 0 {
        true
    } else if b.len() == 0 {
        false
    } else if a[0] != b[0] {
        (a[0] as int) < (b[0] as int)
    } else {
        seq_le(a.drop_first(), b.drop_first())
    }
}

/// What packages are ordered by: name, then url, then hash.
pub open spec fn sort_key(p: PrefetchedPackage) -> (Seq<char>, Seq<char>, Seq<char>) {
    (p.name@, p.url@, p.hash@)
}

/// Lexicographic order on sort keys.
pub open spec fn key_le(a: (Seq<char>, Seq<char>, Seq<char>), b: (Seq<char>, Seq<char>, Seq<char>)) -> bool {
    if a.0 != b.0 {
        seq_le(a.0, b.0)
    } else if a.1 != b.1 {
        seq_le(a.1, b.1)
    } else {
        seq_le(a.2, b.2)
    }
}

/// The sort keys of `ps`, as a multiset.
pub open spec fn key_multiset(ps: Seq<PrefetchedPackage>) -> Multiset<(Seq<char>, Seq<char>, Seq<char>)> {
    keys_of(ps).to_multiset()
}

/// The characters of `s`.
pub fn chars_of(s: &str) -> (r: Vec<char>)
    ensures
        r@ == s@,
{
    let n = s.unicode_len();
    let mut r: Vec<char> = Vec::new();
    let mut i: usize = 0;
    while i < n
        invariant
            n == s@.len(),
            i <= n,
            r@ == s@.subrange(0, i as int),
        decreases n - i,
    {
        r.push(s.get_char(i));
        i = i + 1;
        assert(r@ =~= s@.subrange(0, i as int));
    }
    r
}

/// Whether `a` comes before `b` or equals it, lexicographically by character.
pub fn chars_le(a: &Vec<char>, b: &Vec<char>) -> (r: bool)
    ensures
        r == seq_le(a@, b@),
{
    let mut i: usize = 0;
    assert(a@.subrange(0, a@.len() as int) =~= a@);
    assert(b@.subrange(0, b@.len() as int) =~= b@);
    while i < a.len() && i < b.len()
        invariant
            i <= a@.len(),
            i <= b@.len(),
            forall|k: int| 0 <= k < i ==> a@[k] == b@[k],
            seq_le(a@, b@) == seq_le(a@.subrange(i as int, a@.len() as int), b@.subrange(i as int, b@.len() as int)),
        decreases a@.len() - i,
    {
        let x = a[i];
        let y = b[i];
        let ghost sa = a@.subrange(i as int, a@.len() as int);
        let ghost sb = b@.subrange(i as int, b@.len() as int);
        assert(sa[0] == x && sb[0] == y);
        if x != y {
            return x < y;
        }
        assert(sa.drop_first() =~= a@.subrange(i + 1, a@.len() as int));
        assert(sb.drop_first() =~= b@.subrange(i + 1, b@.len() as int));
        i = i + 1;
    }
    proof {
        assert(a@.subrange(0, a@.len() as int) =~= a@);
        assert(b@.subrange(0, b@.len() as int) =~= b@);
    }
    i == a.len()
}

proof fn lemma_seq_le_total(a: Seq<char>, b: Seq<char>)
    ensures
        seq_le(a, b) || seq_le(b, a),
    decreases a.len(),
{
    if a.len() > 0 && b.len() > 0 && a[0] == b[0] {
        lemma_seq_le_total(a.drop_first(), b.drop_first());
    }
}

proof fn lemma_seq_le_antisymmetric(a: Seq<char>, b: Seq<char>)
    ensures
        seq_le(a, b) && seq_le(b, a) ==> a == b,
    decreases a.len(),
{
    if seq_le(a, b) && seq_le(b, a) {
        if a.len() == 0 {
            if b.len() > 0 {
                assert(!seq_le(b, a));
            }
            assert(a =~= b);
        } else {
            assert(b.len() > 0);
            assert(a[0] == b[0]);
            lemma_seq_le_antisymmetric(a.drop_first(), b.drop_first());
            assert(a.drop_first() == b.drop_first());
            assert(a.len() == b.len());
            assert forall|i: int| 0 <= i < a.len() implies a[i] == b[i] by {
                if i > 0 {
                    assert(a[i] == a.drop_first()[i - 1]);
                    assert(b[i] == b.drop_first()[i - 1]);
                }
            }
            assert(a =~= b);
        }
    }
}

proof fn lemma_seq_le_transitive(a: Seq<char>, b: Seq<char>, c: Seq<char>)
    ensures
        seq_le(a, b) && seq_le(b, c) ==> seq_le(a, c),
    decreases a.len(),
{
    if seq_le(a, b) && seq_le(b, c) && a.len() > 0 && b.len() > 0 && c.len() > 0 && a[0] == b[0]
        && b[0] == c[0] {
        lemma_seq_le_transitive(a.drop_first(), b.drop_first(), c.drop_first());
    }
}

proof fn lemma_key_le_facts(
    x: (Seq<char>, Seq<char>, Seq<char>),
    y: (Seq<char>, Seq<char>, Seq<char>),
    z: (Seq<char>, Seq<char>, Seq<char>),
)
    ensures
        key_le(x, y) || key_le(y, x),
        key_le(x, y) && key_le(y, x) ==> x == y,
        key_le(x, y) && key_le(y, z) ==> key_le(x, z),
{
    lemma_seq_le_total(x.0, y.0);
    lemma_seq_le_total(x.1, y.1);
    lemma_seq_le_total(x.2, y.2);
    lemma_seq_le_antisymmetric(x.0, y.0);
    lemma_seq_le_antisymmetric(x.1, y.1);
    lemma_seq_le_antisymmetric(x.2, y.2);
    lemma_seq_le_antisymmetric(y.0, z.0);
    lemma_seq_le_antisymmetric(y.1, z.1);
    lemma_seq_le_antisymmetric(y.2, z.2);
    lemma_seq_le_antisymmetric(x.0, z.0);
    lemma_seq_le_antisymmetric(x.1, z.1);
    lemma_seq_le_antisymmetric(x.2, z.2);
    lemma_seq_le_transitive(x.0, y.0, z.0);
    lemma_seq_le_transitive(x.1, y.1, z.1);
    lemma_seq_le_transitive(x.2, y.2, z.2);
}

/// The sort keys of `ps`, in order.
pub open spec fn keys_of(ps: Seq<PrefetchedPackage>) -> Seq<(Seq<char>, Seq<char>, Seq<char>)> {
    ps.map_values(|p: PrefetchedPackage| sort_key(p))
}

/// Whether a sequence of sort keys is in order.
pub open spec fn keys_sorted(ks: Seq<(Seq<char>, Seq<char>, Seq<char>)>) -> bool {
    forall|i: int, j: int| 0 <= i < j < ks.len() ==> key_le(#[trigger] ks[i], #[trigger] ks[j])
}

/// Two ordered sequences of keys that hold the same keys are the same.
proof fn lemma_sorted_keys_unique(
    x: Seq<(Seq<char>, Seq<char>, Seq<char>)>,
    y: Seq<(Seq<char>, Seq<char>, Seq<char>)>,
)
    requires
        keys_sorted(x),
        keys_sorted(y),
        x.to_multiset() == y.to_multiset(),
    ensures
        x == y,
    decreases x.len(),
{
    vstd::seq_lib::to_multiset_len(x);
    vstd::seq_lib::to_multiset_len(y);
    if x.len() == 0 {
        assert(x =~= y);
    } else {
        vstd::seq_lib::to_multiset_contains(x, x[0]);
        vstd::seq_lib::to_multiset_contains(y, x[0]);
        vstd::seq_lib::to_multiset_contains(y, y[0]);
        vstd::seq_lib::to_multiset_contains(x, y[0]);
        assert(x.contains(x[0]));
        assert(y.contains(y[0]));
        let j = choose|j: int| 0 <= j < y.len() && y[j] == x[0];
        let k = choose|k: int| 0 <= k < x.len() && x[k] == y[0];
        if j > 0 {
            assert(key_le(y[0], y[j]));
        }
        if k > 0 {
            assert(key_le(x[0], x[k]));
        }
        lemma_key_le_facts(x[0], y[0], x[0]);
        assert(x[0] == y[0]);
        vstd::seq_lib::to_multiset_remove(x, 0);
        vstd::seq_lib::to_multiset_remove(y, 0);
        assert(x.remove(0) =~= x.drop_first());
        assert(y.remove(0) =~= y.drop_first());
        let xs = x.drop_first();
        let ys = y.drop_first();
        assert forall|i: int, l: int| 0 <= i < l < xs.len() implies key_le(
            #[trigger] xs[i],
            #[trigger] xs[l],
        ) by {
            assert(xs[i] == x[i + 1] && xs[l] == x[l + 1]);
        }
        assert forall|i: int, l: int| 0 <= i < l < ys.len() implies key_le(
            #[trigger] ys[i],
            #[trigger] ys[l],
        ) by {
            assert(ys[i] == y[i + 1] && ys[l] == y[l + 1]);
        }
        lemma_sorted_keys_unique(xs, ys);
        assert forall|i: int| 0 <= i < x.len() implies x[i] == y[i] by {
            if i > 0 {
                assert(x[i] == xs[i - 1]);
                assert(y[i] == ys[i - 1]);
            }
        }
        assert(x =~= y);
    }
}

/// The blocks of two sequences with the same keys are the same.
proof fn lemma_blocks_by_keys(a: Seq<PrefetchedPackage>, b: Seq<PrefetchedPackage>)
    requires
        keys_of(a) == keys_of(b),
    ensures
        joined_blocks(a) == joined_blocks(b),
    decreases a.len(),
{
    assert(a.len() == keys_of(a).len());
    assert(b.len() == keys_of(b).len());
    if a.len() > 0 {
        assert(keys_of(a.drop_last()) =~= keys_of(a).drop_last());
        assert(keys_of(b.drop_last()) =~= keys_of(b).drop_last());
        lemma_blocks_by_keys(a.drop_last(), b.drop_last());
        assert(keys_of(a)[a.len() - 1] == keys_of(b)[b.len() - 1]);
        assert(package_block(a.last()) == package_block(b.last()));
        if a.len() == 1 {
            assert(keys_of(a)[0] == keys_of(b)[0]);
        }
    }
}

/// `out` is what rendering `packages` gives: the expression of the packages
/// put in order by name, url and hash.
pub open spec fn rendered_from(out: Seq<char>, packages: Seq<PrefetchedPackage>) -> bool {
    exists|sorted: Seq<PrefetchedPackage>|
        keys_sorted(keys_of(sorted)) && key_multiset(sorted) == key_multiset(packages) && out
            == expression_head() + joined_blocks(sorted) + expression_tail()
}

/// Rendering does not depend on the order the packages come in: two lists
/// with the same packages, in any two orders, give the same text (from
/// `render_expression` or from `dump_nix_expression` on a `Vec`).
pub proof fn lemma_render_order_independent(
    a: Seq<PrefetchedPackage>,
    b: Seq<PrefetchedPackage>,
    out_a: Seq<char>,
    out_b: Seq<char>,
)
    requires
        key_multiset(a) == key_multiset(b),
        rendered_from(out_a, a),
        rendered_from(out_b, b),
    ensures
        out_a == out_b,
{
    let sa = choose|sorted: Seq<PrefetchedPackage>|
        keys_sorted(keys_of(sorted)) && key_multiset(sorted) == key_multiset(a) && out_a
            == expression_head() + joined_blocks(sorted) + expression_tail();
    let sb = choose|sorted: Seq<PrefetchedPackage>|
        keys_sorted(keys_of(sorted)) && key_multiset(sorted) == key_multiset(b) && out_b
            == expression_head() + joined_blocks(sorted) + expression_tail();
    lemma_sorted_keys_unique(keys_of(sa), keys_of(sb));
    lemma_blocks_by_keys(sa, sb);
}

/// Whether `a` and `b` hold the same characters.
fn chars_eq(a: &Vec<char>, b: &Vec<char>) -> (r: bool)
    ensures
        r == (a@ == b@),
{
    if a.len() != b.len() {
        return false;
    }
    let mut i: usize = 0;
    while i < a.len()
        invariant
            a@.len() == b@.len(),
            i <= a@.len(),
            forall|k: int| 0 <= k < i ==> a@[k] == b@[k],
        decreases a@.len() - i,
    {
        if a[i] != b[i] {
            return false;
        }
        i = i + 1;
    }
    assert(a@ =~= b@);
    true
}

/// A sort key as characters.
type CharKey = (Vec<char>, Vec<char>, Vec<char>);

/// The view of a sort key held as characters.
spec fn char_key_view(k: CharKey) -> (Seq<char>, Seq<char>, Seq<char>) {
    (k.0@, k.1@, k.2@)
}

/// Whether key `a` comes before key `b` or equals it.
fn char_key_le(a: &CharKey, b: &CharKey) -> (r: bool)
    ensures
        r == key_le(char_key_view(*a), char_key_view(*b)),
{
    if !chars_eq(&a.0, &b.0) {
        chars_le(&a.0, &b.0)
    } else if !chars_eq(&a.1, &b.1) {
        chars_le(&a.1, &b.1)
    } else {
        chars_le(&a.2, &b.2)
    }
}

/// # Sort packages
///
/// Puts packages in order by name, then url, then hash, so that what is
/// rendered from them does not depend on the order they came in.
pub fn sort_packages(packages: Vec<PrefetchedPackage>) -> (r: Vec<PrefetchedPackage>)
    ensures
        keys_sorted(keys_of(r@)),
        key_multiset(r@) == key_multiset(packages@),
        forall|k: int| 0 <= k < r@.len() ==> packages@.contains(#[trigger] r@[k]),
{
    let ghost input = packages@;
    let mut rest = packages;
    let mut out: Vec<PrefetchedPackage> = Vec::new();
    let mut keys: Vec<CharKey> = Vec::new();
    proof {
        vstd::seq_lib::to_multiset_len(keys_of(out@));
        vstd::multiset::lemma_multiset_empty_len(keys_of(out@).to_multiset());
    }
    assert(input.subrange(0, input.len() as int) =~= input);
    while rest.len() > 0
        invariant
            input == packages@,
            rest@.len() <= input.len(),
            rest@ == input.subrange(0, rest@.len() as int),
            keys@.len() == out@.len(),
            forall|k: int|
                0 <= k < out@.len() ==> char_key_view(#[trigger] keys@[k]) == sort_key(out@[k]),
            keys_sorted(keys_of(out@)),
            keys_of(out@).to_multiset().add(keys_of(rest@).to_multiset()) == keys_of(
                input,
            ).to_multiset(),
            forall|k: int| 0 <= k < out@.len() ==> input.contains(#[trigger] out@[k]),
        decreases rest@.len(),
    {
        let ghost old_rest = rest@;
        let ghost old_out = out@;
        let p = rest.pop().unwrap();
        assert(old_rest == rest@.push(p));
        let key = (chars_of(p.name.as_str()), chars_of(p.url.as_str()), chars_of(p.hash.as_str()));
        let ghost pk = sort_key(p);
        let mut j: usize = 0;
        let mut found = false;
        while !found && j < out.len()
            invariant
                keys@.len() == out@.len(),
                out@ == old_out,
                j <= out@.len(),
                char_key_view(key) == pk,
                forall|k: int|
                    0 <= k < out@.len() ==> char_key_view(#[trigger] keys@[k]) == sort_key(
                        out@[k],
                    ),
                forall|k: int| 0 <= k < j ==> key_le(sort_key(#[trigger] out@[k]), pk),
                found ==> j < out@.len() && key_le(pk, sort_key(out@[j as int])),
            decreases out@.len() - j + if found {
                0int
            } else {
                1int
            },
        {
            if char_key_le(&key, &keys[j]) {
                found = true;
            } else {
                proof {
                    lemma_key_le_facts(pk, sort_key(out@[j as int]), pk);
                }
                j = j + 1;
            }
        }
        out.insert(j, p);
        keys.insert(j, key);
        proof {
            let ko = keys_of(old_out);
            let kn = keys_of(out@);
            assert(kn =~= ko.insert(j as int, pk));
            vstd::seq_lib::to_multiset_insert(ko, j as int, pk);
            assert(keys_of(old_rest) =~= keys_of(rest@).push(pk));
            vstd::seq_lib::to_multiset_build(keys_of(rest@), pk);
            assert(kn.to_multiset().add(keys_of(rest@).to_multiset()) =~= keys_of(
                input,
            ).to_multiset());
            assert forall|a: int, b: int| 0 <= a < b < kn.len() implies key_le(
                #[trigger] kn[a],
                #[trigger] kn[b],
            ) by {
                if b < j {
                    assert(kn[a] == ko[a] && kn[b] == ko[b]);
                } else if b == j {
                    assert(kn[a] == ko[a]);
                } else if a < j {
                    assert(kn[a] == ko[a] && kn[b] == ko[b - 1]);
                    assert(key_le(ko[a], pk));
                    assert(key_le(pk, ko[j as int]));
                    if b - 1 > j {
                        assert(key_le(ko[j as int], ko[b - 1]));
                        lemma_key_le_facts(pk, ko[j as int], ko[b - 1]);
                    }
                    lemma_key_le_facts(ko[a], pk, ko[b - 1]);
                } else if a == j {
                    assert(kn[b] == ko[b - 1]);
                    if b - 1 > j {
                        assert(key_le(ko[j as int], ko[b - 1]));
                        lemma_key_le_facts(pk, ko[j as int], ko[b - 1]);
                    }
                } else {
                    assert(kn[a] == ko[a - 1] && kn[b] == ko[b - 1]);
                }
            }
            assert forall|k: int| 0 <= k < out@.len() implies input.contains(#[trigger] out@[k]) by {
                if k < j {
                    assert(out@[k] == old_out[k]);
                } else if k == j {
                    assert(input[rest@.len() as int] == p);
                } else {
                    assert(out@[k] == old_out[k - 1]);
                }
            }
            assert forall|k: int|
                0 <= k < out@.len() implies char_key_view(#[trigger] keys@[k]) == sort_key(
                out@[k],
            ) by {
                if k < j {
                    assert(out@[k] == old_out[k]);
                } else if k > j {
                    assert(out@[k] == old_out[k - 1]);
                }
            }
        }
    }
    proof {
        assert(keys_of(rest@) =~= Seq::<(Seq<char>, Seq<char>, Seq<char>)>::empty());
        vstd::seq_lib::to_multiset_len(keys_of(rest@));
        vstd::multiset::lemma_multiset_empty_len(keys_of(rest@).to_multiset());
        assert(keys_of(out@).to_multiset() =~= keys_of(input).to_multiset());
    }
    out
}

/// # Render the expression
///
/// Writes out the packages, put in order first, as one Nix expression: a
/// fetch block per package and the step that assembles them.
pub fn render_expression(packages: Vec<PrefetchedPackage>) -> (r: String)
    requires
        all_dumpable(packages@),
    ensures
        rendered_from(r@, packages@),
{
    let ghost input = packages@;
    let sorted = sort_packages(packages);
    assert forall|i: int| 0 <= i < sorted@.len() implies is_sri_sha256(
        #[trigger] sorted@[i].hash@,
    ) by {
        assert(input.contains(sorted@[i]));
    }
    let r = dump_in_order(&sorted);
    assert(keys_sorted(keys_of(sorted@)) && key_multiset(sorted@) == key_multiset(input) && r@
        == expression_head() + joined_blocks(sorted@) + expression_tail());
    r
}

/// One package is written out as exactly one fetch block, that of the
/// package, between the head and the step that assembles the packages.
pub proof fn lemma_render_single(p: PrefetchedPackage, out: Seq<char>)
    requires
        rendered_from(out, seq![p]),
    ensures
        out == expression_head() + package_block(p) + expression_tail(),
{
    let one = seq![p];
    let s = choose|sorted: Seq<PrefetchedPackage>|
        keys_sorted(keys_of(sorted)) && key_multiset(sorted) == key_multiset(one) && out
            == expression_head() + joined_blocks(sorted) + expression_tail();
    assert(keys_sorted(keys_of(one)));
    lemma_sorted_keys_unique(keys_of(s), keys_of(one));
    lemma_blocks_by_keys(s, one);
    assert(joined_blocks(one) == package_block(p));
}

} // verus!
