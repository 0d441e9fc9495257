//! Executable declarations of a package, raw and normalized

use vstd::prelude::*;

use crate::text::{after_last, lemma_last_index, rfind_char};

verus! {

/// The views of a list of string pairs.
pub open spec fn pairs_view(v: Seq<(String, String)>) -> Seq<(Seq<char>, Seq<char>)> {
    v.map_values(|e: (String, String)| (e.0@, e.1@))
}

/// The executables a package declares, as its lockfile entry gives them
#[derive(Debug)]
pub enum Binaries {
    /// No executables
    Absent,
    /// One executable, named after the package, at this path
    Unnamed(String),
    /// Executables by name, each with its path
    Named(Vec<(String, String)>),
}

/// What a `Binaries` holds, as strings
pub enum BinariesView {
    Absent,
    Unnamed(Seq<char>),
    Named(Seq<(Seq<char>, Seq<char>)>),
}

impl View for Binaries {
    type V = BinariesView;

    open spec fn view(&self) -> BinariesView {
        match self {
            Binaries::Absent => BinariesView::Absent,
            Binaries::Unnamed(path) => BinariesView::Unnamed(path@),
            Binaries::Named(entries) => BinariesView::Named(pairs_view(entries@)),
        }
    }
}

/// Executables by name, each with its path inside the package
#[derive(Debug)]
pub struct NormalizedBinary(pub Vec<(String, String)>);

impl View for NormalizedBinary {
    type V = Seq<(Seq<char>, Seq<char>)>;

    open spec fn view(&self) -> Seq<(Seq<char>, Seq<char>)> {
        pairs_view(self.0@)
    }
}

/// The name a package's single unnamed executable gets: the last `/`-separated
/// segment of the package name, so without its scope.
pub open spec fn short_name(package_name: Seq<char>) -> Seq<char> {
    after_last(package_name, '/')
}

impl Binaries {
    /// A copy of these binaries.
    pub fn duplicate(&self) -> (r: Binaries)
        ensures
            r@ == self@,
    {
        match self {
            Binaries::Absent => Binaries::Absent,
            Binaries::Unnamed(path) => Binaries::Unnamed(path.clone()),
            Binaries::Named(entries) => {
                let mut copy: Vec<(String, String)> = Vec::new();
                let mut i: usize = 0;
                while i < entries.len()
                    invariant
                        i <= entries@.len(),
                        copy@.len() == i,
                        forall|k: int|
                            0 <= k < i ==> (#[trigger] copy@[k]).0@ == entries@[k].0@ && copy@[k].1@
                                == entries@[k].1@,
                    decreases entries@.len() - i,
                {
                    copy.push((entries[i].0.clone(), entries[i].1.clone()));
                    i = i + 1;
                }
                assert(pairs_view(copy@) =~= pairs_view(entries@));
                Binaries::Named(copy)
            },
        }
    }

    /// The normalized executables of a package named `package_name`.
    pub open spec fn spec_normalize(&self, package_name: Seq<char>) -> Seq<(Seq<char>, Seq<char>)> {
        match self {
            Binaries::Absent => Seq::empty(),
            Binaries::Unnamed(path) => seq![(short_name(package_name), path@)],
            Binaries::Named(entries) => pairs_view(entries@),
        }
    }

    /// # Normalize binaries
    ///
    /// Turns the declaration of a package named `package_name` into executables
    /// by name: none for `Absent`, the package's short name for `Unnamed`, and a
    /// `Named` list as it is.
    pub fn normalize(self, package_name: &str) -> (r: NormalizedBinary)
        ensures
            r@ == self.spec_normalize(package_name@),
            self matches Binaries::Named(entries) ==> r.0 == entries,
    {
        match self {
            Binaries::Absent => {
                let r = NormalizedBinary(Vec::new());
                assert(r@ =~= Seq::<(Seq<char>, Seq<char>)>::empty());
                r
            },
            Binaries::Unnamed(path) => {
                let key = short_name_of(package_name);
                let ghost key_view = key@;
                let ghost path_view = path@;
                let mut entries = Vec::new();
                entries.push((key, path));
                let r = NormalizedBinary(entries);
                assert(r@ =~= seq![(key_view, path_view)]);
                r
            },
            Binaries::Named(entries) => NormalizedBinary(entries),
        }
    }
}

/// The last `/`-separated segment of a package name.
pub fn short_name_of(package_name: &str) -> (r: String)
    ensures
        r@ == short_name(package_name@),
{
    match rfind_char(package_name, '/') {
        Some(i) => {
            proof {
                lemma_last_index(package_name@, '/', i as int);
            }
            let n = package_name.unicode_len();
            package_name.substring_char(i + 1, n).to_owned()
        },
        None => package_name.to_owned(),
    }
}

} // verus!
