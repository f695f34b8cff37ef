//! Platforms to evaluate target specifications against.

use crate::graph::dependency::strings_view;
use crate::sorted::{lemma_insert_sorted, lemma_sorted_same, sorted_position, strictly_sorted};
use crate::text::str_eq;
use vstd::prelude::*;

verus! {

/// A set of target features to match.
#[derive(Clone, Debug, PartialEq, Eq)]
#[non_exhaustive]
pub enum TargetFeatures {
    /// Match all target features.
    All,
    /// Only match the specified features: their names, in the order of a
    /// dictionary, none twice.
    Features(Vec<String>),
}

/// The model of [`TargetFeatures`]: every feature, or a set of names.
pub enum TargetFeaturesView {
    All,
    Features(Set<Seq<char>>),
}

/// The set of the strings that a sequence holds.
pub open spec fn string_set(v: Seq<String>) -> Set<Seq<char>> {
    Set::new(|f: Seq<char>| exists|i: int| 0 <= i < v.len() && (#[trigger] v[i])@ == f)
}

/// The set of the string slices that a sequence holds.
pub open spec fn str_set(v: Seq<&str>) -> Set<Seq<char>> {
    Set::new(|f: Seq<char>| exists|i: int| 0 <= i < v.len() && (#[trigger] v[i])@ == f)
}

impl TargetFeaturesView {
    /// Whether the given feature is taken to be present.
    pub open spec fn matches(self, feature: Seq<char>) -> bool {
        match self {
            TargetFeaturesView::All => true,
            TargetFeaturesView::Features(set) => set.contains(feature),
        }
    }
}

impl View for TargetFeatures {
    type V = TargetFeaturesView;

    open spec fn view(&self) -> TargetFeaturesView {
        match self {
            TargetFeatures::All => TargetFeaturesView::All,
            TargetFeatures::Features(v) => TargetFeaturesView::Features(string_set(v@)),
        }
    }
}

impl TargetFeatures {
    /// The names that are kept, as they are kept.
    pub open spec fn names(&self) -> Seq<Seq<char>> {
        match self {
            TargetFeatures::All => Seq::empty(),
            TargetFeatures::Features(v) => strings_view(v@),
        }
    }

    /// Whether the names are kept in the order of a dictionary, none
    /// twice. The functions that make target features make them so.
    pub open spec fn wf(&self) -> bool {
        strictly_sorted(self.names())
    }

    /// Target features are fixed by what they match: two of the same names
    /// keep the same list, in whatever order and however often the names
    /// were given.
    pub proof fn lemma_features_fixed(&self, other: &TargetFeatures)
        requires
            self.wf(),
            other.wf(),
            self@ == other@,
        ensures
            self.names() == other.names(),
    {
        match (self, other) {
            (TargetFeatures::Features(v), TargetFeatures::Features(w)) => {
                let a = strings_view(v@);
                let b = strings_view(w@);
                assert forall|x: Seq<char>| a.contains(x) <==> b.contains(x) by {
                    if a.contains(x) {
                        let i = choose|i: int| 0 <= i < a.len() && a[i] == x;
                        assert(v@[i]@ == x);
                        assert(string_set(v@).contains(x));
                        assert(string_set(w@).contains(x));
                        let k = choose|k: int| 0 <= k < w@.len() && (#[trigger] w@[k])@ == x;
                        assert(b[k] == x);
                    }
                    if b.contains(x) {
                        let i = choose|i: int| 0 <= i < b.len() && b[i] == x;
                        assert(w@[i]@ == x);
                        assert(string_set(w@).contains(x));
                        assert(string_set(v@).contains(x));
                        let k = choose|k: int| 0 <= k < v@.len() && (#[trigger] v@[k])@ == x;
                        assert(a[k] == x);
                    }
                }
                lemma_sorted_same(a, b);
            },
            _ => {},
        }
    }

    /// Creates a new `TargetFeatures` which matches some features. In
    /// which order and how often the names are given makes no difference.
    pub fn features(features: &[&str]) -> (r: Self)
        ensures
            r@ == TargetFeaturesView::Features(str_set(features@)),
            r.wf(),
    {
        let mut names: Vec<String> = Vec::new();
        let mut i: usize = 0;
        while i < features.len()
            invariant
                i <= features.len(),
                strictly_sorted(strings_view(names@)),
                forall|x: Seq<char>| #[trigger]
                    strings_view(names@).contains(x) <==> exists|k: int|
                        0 <= k < i && (#[trigger] features@[k])@ == x,
            decreases features.len() - i,
        {
            let ghost before = strings_view(names@);
            let (pos, found) = sorted_position(&names, features[i]);
            if found {
                assert(before[pos as int] == features@[i as int]@);
                assert(before.contains(features@[i as int]@));
            } else {
                proof {
                    lemma_insert_sorted(before, pos as int, features@[i as int]@);
                }
                names.insert(pos, features[i].to_owned());
                assert(strings_view(names@) =~= before.insert(pos as int, features@[i as int]@));
            }
            i = i + 1;
        }
        assert(string_set(names@) =~= str_set(features@)) by {
            assert forall|f: Seq<char>| string_set(names@).contains(f) implies str_set(
                features@,
            ).contains(f) by {
                let k = choose|k: int| 0 <= k < names@.len() && (#[trigger] names@[k])@ == f;
                assert(strings_view(names@)[k] == f);
                assert(strings_view(names@).contains(f));
            }
            assert forall|f: Seq<char>| str_set(features@).contains(f) implies string_set(
                names@,
            ).contains(f) by {
                assert(strings_view(names@).contains(f));
                let k = choose|k: int|
                    0 <= k < strings_view(names@).len() && strings_view(names@)[k] == f;
                assert(names@[k]@ == f);
            }
        }
        TargetFeatures::Features(names)
    }

    /// A copy of these target features.
    pub fn duplicate(&self) -> (r: Self)
        ensures
            r@ == self@,
            r.names() == self.names(),
    {
        match self {
            TargetFeatures::All => TargetFeatures::All,
            TargetFeatures::Features(names) => {
                let mut copies: Vec<String> = Vec::new();
                let mut i: usize = 0;
                while i < names.len()
                    invariant
                        i <= names.len(),
                        copies.len() == i,
                        forall|k: int| 0 <= k < i ==> (#[trigger] copies[k])@ == names[k]@,
                    decreases names.len() - i,
                {
                    copies.push(names[i].clone());
                    i = i + 1;
                }
                assert(string_set(copies@) =~= string_set(names@)) by {
                    assert forall|f: Seq<char>| string_set(copies@).contains(f) implies string_set(
                        names@,
                    ).contains(f) by {
                        let k = choose|k: int| 0 <= k < copies@.len() && (#[trigger] copies@[k])@ == f;
                        assert(names@[k]@ == f);
                    }
                    assert forall|f: Seq<char>| string_set(names@).contains(f) implies string_set(
                        copies@,
                    ).contains(f) by {
                        let k = choose|k: int| 0 <= k < names@.len() && (#[trigger] names@[k])@ == f;
                        assert(copies@[k]@ == f);
                    }
                }
                assert(strings_view(copies@) =~= strings_view(names@));
                TargetFeatures::Features(copies)
            },
        }
    }

    /// Creates a new `TargetFeatures` which doesn't match any features.
    pub fn none() -> (r: Self)
        ensures
            r@ == TargetFeaturesView::Features(Set::<Seq<char>>::empty()),
            r.wf(),
    {
        let names: Vec<String> = Vec::new();
        assert(string_set(names@) =~= Set::<Seq<char>>::empty());
        TargetFeatures::Features(names)
    }

    /// Returns true if the given feature is taken to be present.
    pub fn matches(&self, feature: &str) -> (r: bool)
        ensures
            r == self@.matches(feature@),
    {
        match self {
            TargetFeatures::All => true,
            TargetFeatures::Features(names) => {
                let mut i: usize = 0;
                while i < names.len()
                    invariant
                        i <= names.len(),
                        self@ == TargetFeaturesView::Features(string_set(names@)),
                        forall|k: int| 0 <= k < i ==> (#[trigger] names@[k])@ != feature@,
                    decreases names.len() - i,
                {
                    if str_eq(names[i].as_str(), feature) {
                        assert(names@[i as int]@ == feature@);
                        return true;
                    }
                    i = i + 1;
                }
                false
            },
        }
    }
}

/// The entry of a target triple in the database of platforms: its
/// operating system, architecture and environment, as the values that
/// `target_os`, `target_arch` and `target_env` have on it. `None` for a
/// triple that the database does not hold.
pub uninterp spec fn platform_entry(triple: Seq<char>) -> Option<(Seq<char>, Seq<char>, Seq<char>)>;

/// `platforms::Platform::find`: looks a triple up in the database of
/// platforms and hands out the names of its operating system, architecture
/// and environment (the empty string where the platform has none).
#[verifier::external_body]
fn platform_lookup(triple: &str) -> (r: Option<(String, String, String)>)
    ensures
        match r {
            Some(e) => platform_entry(triple@) == Some((e.0@, e.1@, e.2@)),
            None => platform_entry(triple@) is None,
        },
{
    platforms::Platform::find(triple).map(
        |p|
            (
                p.target_os.as_str().to_string(),
                p.target_arch.as_str().to_string(),
                p.target_env.as_str().to_string(),
            ),
    )
}

/// A platform to evaluate target specs against.
#[derive(Clone, Debug, PartialEq, Eq)]
pub struct Platform {
    triple: String,
    os: String,
    arch: String,
    env: String,
    target_features: TargetFeatures,
}

/// The model of a [`Platform`].
pub struct PlatformView {
    pub triple: Seq<char>,
    pub os: Seq<char>,
    pub arch: Seq<char>,
    pub env: Seq<char>,
    pub target_features: TargetFeaturesView,
}

impl View for Platform {
    type V = PlatformView;

    closed spec fn view(&self) -> PlatformView {
        PlatformView {
            triple: self.triple@,
            os: self.os@,
            arch: self.arch@,
            env: self.env@,
            target_features: self.target_features@,
        }
    }
}

/// The platform that a triple names, with the given target features.
pub open spec fn platform_of(triple: Seq<char>, target_features: TargetFeaturesView) -> Option<
    PlatformView,
> {
    match platform_entry(triple) {
        Some(e) => Some(PlatformView { triple, os: e.0, arch: e.1, env: e.2, target_features }),
        None => None,
    }
}

impl Platform {
    /// Creates a new `Platform` from the given triple and target features.
    ///
    /// Returns `None` if this platform wasn't found in the database.
    pub fn new(triple: &str, target_features: TargetFeatures) -> (r: Option<Self>)
        ensures
            match r {
                Some(p) => platform_of(triple@, target_features@) == Some(p@),
                None => platform_of(triple@, target_features@) is None,
            },
    {
        match platform_lookup(triple) {
            Some(e) => Some(
                Platform { triple: triple.to_owned(), os: e.0, arch: e.1, env: e.2, target_features },
            ),
            None => None,
        }
    }

    /// A copy of this platform.
    pub fn duplicate(&self) -> (r: Self)
        ensures
            r@ == self@,
    {
        Platform {
            triple: self.triple.clone(),
            os: self.os.clone(),
            arch: self.arch.clone(),
            env: self.env.clone(),
            target_features: self.target_features.duplicate(),
        }
    }

    /// Returns the target triple for this platform.
    pub fn triple(&self) -> (r: &str)
        ensures
            r@ == self@.triple,
    {
        self.triple.as_str()
    }

    /// Returns the name of the operating system of this platform.
    pub fn os(&self) -> (r: &str)
        ensures
            r@ == self@.os,
    {
        self.os.as_str()
    }

    /// Returns the name of the architecture of this platform.
    pub fn arch(&self) -> (r: &str)
        ensures
            r@ == self@.arch,
    {
        self.arch.as_str()
    }

    /// Returns the name of the environment of this platform, empty if it
    /// has none.
    pub fn env(&self) -> (r: &str)
        ensures
            r@ == self@.env,
    {
        self.env.as_str()
    }

    /// Returns the set of target features for this platform.
    pub fn target_features(&self) -> (r: &TargetFeatures)
        ensures
            r@ == self@.target_features,
    {
        &self.target_features
    }
}

} // verus!
