//! From the metadata of a workspace to its package graph.

use crate::errors::Error;
use crate::graph::dependency::{
    opt_string_view, strings_view, DependencyEdge, DependencyEdgeView, DependencyMetadata,
    DependencyMetadataView, DependencyReq, DependencyReqImplView, DependencyReqView,
    DependencyStatus, Question,
};
use crate::metadata::{Dependency, DependencyKind};
use crate::semver_support::{cargo_version_matches, version_matches};
use crate::target_spec::parser::target_of;
use crate::target_spec::platform::{Platform, PlatformView};
use crate::target_spec::types::{TargetEnumView, TargetSpec};
use crate::text::{chars_of, str_eq, string_of};
use vstd::prelude::*;

verus! {

/// A name as the compiler sees it: every `-` made `_`.
pub open spec fn normalized(name: Seq<char>) -> Seq<char> {
    Seq::new(
        name.len(),
        |i: int|
            if name[i] == '-' {
                '_'
            } else {
                name[i]
            },
    )
}

/// Makes every `-` of a name `_`.
pub fn normalize(name: &str) -> (r: String)
    ensures
        r@ == normalized(name@),
{
    let chars = chars_of(name);
    let mut out: Vec<char> = Vec::new();
    let mut i: usize = 0;
    while i < chars.len()
        invariant
            i <= chars.len(),
            chars@ == name@,
            out.len() == i,
            forall|k: int| 0 <= k < i ==> out[k] == normalized(name@)[k],
        decreases chars.len() - i,
    {
        let c = chars[i];
        out.push(if c == '-' {
            '_'
        } else {
            c
        });
        i = i + 1;
    }
    assert(out@ =~= normalized(name@));
    string_of(out.as_slice())
}

/// The name of a dependency as the manifest writes it: the new name, where
/// the dependency is renamed.
pub open spec fn written_name(d: Dependency) -> Seq<char> {
    match d.rename {
        Some(r) => r@,
        None => d.name@,
    }
}

/// Whether a renamed declaration stands for the resolved dependency of the
/// given name, on a package of the given version.
pub open spec fn renamed_match(d: Dependency, resolved_name: Seq<char>, to_version: Seq<char>) -> bool {
    d.rename matches Some(r) && normalized(r@) == resolved_name && version_matches(
        d.req@,
        to_version,
    )
}

/// Whether a declaration that is not renamed stands for a dependency on
/// the package of the given name and version.
pub open spec fn named_match(d: Dependency, to_name: Seq<char>, to_version: Seq<char>) -> bool {
    d.rename is None && d.name@ == to_name && version_matches(d.req@, to_version)
}

/// Whether one of the declarations is a renamed match.
pub open spec fn any_renamed_match(
    deps: Seq<Dependency>,
    resolved_name: Seq<char>,
    to_version: Seq<char>,
) -> bool {
    exists|i: int| 0 <= i < deps.len() && renamed_match(#[trigger] deps[i], resolved_name, to_version)
}

/// What a resolved dependency is matched against: its resolved name, and
/// the name and the version of the package that it leads to.
pub struct Resolved {
    pub resolved_name: Seq<char>,
    pub to_name: Seq<char>,
    pub to_version: Seq<char>,
}

/// Whether a declaration contributes to the edge of a resolved dependency.
/// Renamed matches come first: only where there is none do the
/// declarations under the package's own name count.
pub open spec fn contributes(deps: Seq<Dependency>, d: Dependency, to: Resolved) -> bool {
    if any_renamed_match(deps, to.resolved_name, to.to_version) {
        renamed_match(d, to.resolved_name, to.to_version)
    } else {
        named_match(d, to.to_name, to.to_version)
    }
}

/// For each declaration, whether it contributes to the edge.
pub fn contributing(
    deps: &Vec<Dependency>,
    resolved_name: &str,
    to_name: &str,
    to_version: &str,
) -> (flags: Vec<bool>)
    ensures
        flags.len() == deps.len(),
        forall|i: int|
            0 <= i < deps.len() ==> flags[i] == contributes(
                deps@,
                #[trigger] deps[i],
                Resolved { resolved_name: resolved_name@, to_name: to_name@, to_version: to_version@ },
            ),
{
    let mut renamed: Vec<bool> = Vec::new();
    let mut named: Vec<bool> = Vec::new();
    let mut any_renamed = false;
    let mut i: usize = 0;
    while i < deps.len()
        invariant
            i <= deps.len(),
            renamed.len() == i,
            named.len() == i,
            forall|k: int|
                0 <= k < i ==> renamed[k] == renamed_match(
                    #[trigger] deps[k],
                    resolved_name@,
                    to_version@,
                ),
            forall|k: int|
                0 <= k < i ==> named[k] == named_match(#[trigger] deps[k], to_name@, to_version@),
            any_renamed <==> exists|k: int|
                0 <= k < i && renamed_match(#[trigger] deps[k], resolved_name@, to_version@),
        decreases deps.len() - i,
    {
        let d = &deps[i];
        let version_ok = cargo_version_matches(d.req.as_str(), to_version);
        let (is_renamed, is_named) = match &d.rename {
            Some(r) => {
                let n = normalize(r.as_str());
                (version_ok && str_eq(n.as_str(), resolved_name), false)
            },
            None => (false, version_ok && str_eq(d.name.as_str(), to_name)),
        };
        renamed.push(is_renamed);
        named.push(is_named);
        if is_renamed {
            any_renamed = true;
        }
        i = i + 1;
    }
    if any_renamed {
        renamed
    } else {
        named
    }
}

/// The names of `acc`, and behind them those of the first `n` of `items`
/// that were not there before.
pub open spec fn union_names(acc: Seq<Seq<char>>, items: Seq<Seq<char>>, n: nat) -> Seq<Seq<char>>
    decreases n,
{
    if n == 0 {
        acc
    } else {
        let before = union_names(acc, items, (n - 1) as nat);
        if before.contains(items[n - 1]) {
            before
        } else {
            before.push(items[n - 1])
        }
    }
}

/// Whether a list of strings holds the given one.
pub fn contains_string(v: &Vec<String>, s: &str) -> (r: bool)
    ensures
        r == strings_view(v@).contains(s@),
{
    let mut i: usize = 0;
    while i < v.len()
        invariant
            i <= v.len(),
            forall|k: int| 0 <= k < i ==> strings_view(v@)[k] != s@,
        decreases v.len() - i,
    {
        if str_eq(v[i].as_str(), s) {
            assert(strings_view(v@)[i as int] == s@);
            return true;
        }
        i = i + 1;
    }
    false
}

/// A copy of a list of strings.
pub fn clone_strings(v: &Vec<String>) -> (r: Vec<String>)
    ensures
        strings_view(r@) == strings_view(v@),
{
    let mut out: Vec<String> = Vec::new();
    let mut i: usize = 0;
    while i < v.len()
        invariant
            i <= v.len(),
            out.len() == i,
            forall|k: int| 0 <= k < i ==> out[k]@ == v[k]@,
        decreases v.len() - i,
    {
        out.push(v[i].clone());
        i = i + 1;
    }
    assert(strings_view(out@) =~= strings_view(v@));
    out
}

/// Adds to `acc` the strings of `items` that it does not hold yet.
pub fn add_names(acc: &mut Vec<String>, items: &Vec<String>)
    ensures
        strings_view(final(acc)@) == union_names(
            strings_view(old(acc)@),
            strings_view(items@),
            items.len() as nat,
        ),
{
    let mut i: usize = 0;
    while i < items.len()
        invariant
            i <= items.len(),
            strings_view(acc@) == union_names(
                strings_view(old(acc)@),
                strings_view(items@),
                i as nat,
            ),
        decreases items.len() - i,
    {
        if !contains_string(acc, items[i].as_str()) {
            let ghost before = strings_view(acc@);
            acc.push(items[i].clone());
            assert(strings_view(acc@) =~= before.push(items[i as int]@));
        }
        assert(strings_view(items@)[i as int] == items[i as int]@);
        i = i + 1;
    }
}

/// What the declarations of one kind, as far as they were read, say of an
/// edge.
pub struct KindState {
    /// How many declarations contributed.
    pub count: nat,
    /// The requirement of the first of them.
    pub first_req: Seq<char>,
    /// The target of the first of them, as written.
    pub first_target: Option<Seq<char>>,
    /// The requirements by platform.
    pub req: DependencyReqView,
    /// The features that they list.
    pub features: Seq<Seq<char>>,
}

/// The target of a declaration.
pub open spec fn declared_target(d: Dependency) -> Option<TargetEnumView> {
    match d.target {
        Some(t) => target_of(t@),
        None => None,
    }
}

/// Whether the target of a declaration, where it has one, is a target
/// specification.
pub open spec fn target_valid(d: Dependency) -> bool {
    d.target matches Some(t) ==> target_of(t@) is Some
}

impl KindState {
    /// The state before any declaration.
    pub open spec fn initial() -> KindState {
        KindState {
            count: 0,
            first_req: Seq::empty(),
            first_target: None,
            req: DependencyReqView {
                mandatory: DependencyReqImplView::empty(),
                optional: DependencyReqImplView::empty(),
            },
            features: Seq::empty(),
        }
    }

    /// The state after one more declaration: it goes to the optional half
    /// of the requirements if it is optional, and else to the mandatory one.
    pub open spec fn add(self, d: Dependency) -> KindState {
        let features = strings_view(d.features@);
        KindState {
            count: self.count + 1,
            first_req: if self.count == 0 {
                d.req@
            } else {
                self.first_req
            },
            first_target: if self.count == 0 {
                opt_string_view(d.target)
            } else {
                self.first_target
            },
            req: if d.optional {
                DependencyReqView {
                    mandatory: self.req.mandatory,
                    optional: self.req.optional.add(
                        declared_target(d),
                        d.uses_default_features,
                        features,
                    ),
                }
            } else {
                DependencyReqView {
                    mandatory: self.req.mandatory.add(
                        declared_target(d),
                        d.uses_default_features,
                        features,
                    ),
                    optional: self.req.optional,
                }
            },
            features: union_names(self.features, features, features.len()),
        }
    }

    /// The details of the kind: none without a declaration. The target is
    /// kept only where one declaration alone contributed.
    pub open spec fn metadata(self, current: Option<PlatformView>) -> Option<
        DependencyMetadataView,
    > {
        if self.count == 0 {
            None
        } else {
            Some(
                DependencyMetadataView {
                    version_req: self.first_req,
                    dependency_req: self.req,
                    current_status: self.req.status_current(Question::Build, current),
                    current_default_features: self.req.status_current(
                        Question::DefaultFeatures,
                        current,
                    ),
                    all_features: self.features,
                    single_target: if self.count == 1 {
                        self.first_target
                    } else {
                        None
                    },
                },
            )
        }
    }
}

/// The state of a kind after the first `n` declarations: those that
/// contribute to the edge and are of the kind count.
pub open spec fn kind_state(deps: Seq<Dependency>, to: Resolved, kind: DependencyKind, n: nat) -> KindState
    decreases n,
{
    if n == 0 {
        KindState::initial()
    } else {
        let before = kind_state(deps, to, kind, (n - 1) as nat);
        let d = deps[n - 1];
        if contributes(deps, d, to) && d.kind == kind {
            before.add(d)
        } else {
            before
        }
    }
}

/// Whether every declaration that contributes to the edge has a valid
/// target.
pub open spec fn targets_valid(deps: Seq<Dependency>, to: Resolved) -> bool {
    forall|i: int| 0 <= i < deps.len() && contributes(deps, #[trigger] deps[i], to) ==> target_valid(deps[i])
}

/// The details of one kind of an edge.
pub open spec fn kind_metadata(
    deps: Seq<Dependency>,
    to: Resolved,
    kind: DependencyKind,
    current: Option<PlatformView>,
) -> Option<DependencyMetadataView> {
    kind_state(deps, to, kind, deps.len()).metadata(current)
}

/// The index of the first declaration that contributes to the edge, from
/// `i` on; the number of declarations if there is none.
pub open spec fn first_contributing(deps: Seq<Dependency>, to: Resolved, i: int) -> int
    decreases deps.len() - i,
{
    if i < 0 || i >= deps.len() {
        deps.len() as int
    } else if contributes(deps, deps[i], to) {
        i
    } else {
        first_contributing(deps, to, i + 1)
    }
}

/// The edge of a resolved dependency, as the declarations that contribute
/// to it describe it. It goes by the name that the first of them writes.
pub open spec fn edge_of(deps: Seq<Dependency>, to: Resolved, current: Option<PlatformView>) -> DependencyEdgeView {
    DependencyEdgeView {
        dep_name: written_name(deps[first_contributing(deps, to, 0)]),
        resolved_name: to.resolved_name,
        normal: kind_metadata(deps, to, DependencyKind::Normal, current),
        build: kind_metadata(deps, to, DependencyKind::Build, current),
        dev: kind_metadata(deps, to, DependencyKind::Development, current),
    }
}

/// Whether the declarations describe an edge for the resolved dependency:
/// one of them contributes, and the targets are valid.
pub open spec fn edge_exists(deps: Seq<Dependency>, to: Resolved) -> bool {
    first_contributing(deps, to, 0) < deps.len() && targets_valid(deps, to)
}

/// The state of one kind as it is built up.
struct KindBuilder {
    count: usize,
    first_req: String,
    first_target: Option<String>,
    req: DependencyReq,
    features: Vec<String>,
}

impl KindBuilder {
    spec fn state(&self) -> KindState {
        KindState {
            count: self.count as nat,
            first_req: self.first_req@,
            first_target: opt_string_view(self.first_target),
            req: self.req@,
            features: strings_view(self.features@),
        }
    }

    fn new() -> (r: KindBuilder)
        ensures
            r.state() == KindState::initial(),
    {
        let r = KindBuilder {
            count: 0,
            first_req: String::new(),
            first_target: None,
            req: DependencyReq::empty(),
            features: Vec::new(),
        };
        assert(strings_view(r.features@) =~= Seq::empty());
        r
    }

    /// Adds a declaration; fails where its target is no target
    /// specification.
    fn add(&mut self, d: &Dependency) -> (r: Result<(), Error>)
        requires
            old(self).count < usize::MAX,
        ensures
            match r {
                Ok(()) => target_valid(*d) && final(self).state() == old(self).state().add(*d),
                Err(e) => !target_valid(*d) && e is PackageGraphConstructError,
            },
    {
        let target = match &d.target {
            Some(t) => match TargetSpec::new(t.as_str()) {
                Ok(spec) => Some(spec),
                Err(_) => {
                    return Err(
                        Error::PackageGraphConstructError(
                            crate::errors::join2("invalid target specification: ", t.as_str()),
                        ),
                    );
                },
            },
            None => None,
        };
        if self.count == 0 {
            self.first_req = d.req.clone();
            self.first_target = d.target.clone();
        }
        self.count = self.count + 1;
        if d.optional {
            self.req.optional.add_instance(target, d.uses_default_features, d.features.clone());
        } else {
            self.req.mandatory.add_instance(target, d.uses_default_features, d.features.clone());
        }
        add_names(&mut self.features, &d.features);
        Ok(())
    }

    fn finish(self, current: &Option<Platform>) -> (r: Option<DependencyMetadata>)
        ensures
            crate::graph::dependency::opt_metadata_view(r) == self.state().metadata(
                crate::graph::dependency::opt_platform_view(*current),
            ),
    {
        if self.count == 0 {
            None
        } else {
            let current_status = self.req.status_current(Question::Build, current);
            let current_default_features = self.req.status_current(
                Question::DefaultFeatures,
                current,
            );
            let single_target = if self.count == 1 {
                self.first_target
            } else {
                None
            };
            Some(
                DependencyMetadata {
                    version_req: self.first_req,
                    dependency_req: self.req,
                    current_status,
                    current_default_features,
                    all_features: self.features,
                    single_target,
                },
            )
        }
    }
}

/// The model of a platform that may not be known.
pub open spec fn current_view(current: Option<Platform>) -> Option<PlatformView> {
    crate::graph::dependency::opt_platform_view(current)
}

/// Whether the details of every kind of an edge ask for a version that the
/// given one meets.
pub open spec fn edge_accepts_version(edge: DependencyEdgeView, version: Seq<char>) -> bool {
    &&& edge.normal matches Some(m) ==> version_matches(m.version_req, version)
    &&& edge.build matches Some(m) ==> version_matches(m.version_req, version)
    &&& edge.dev matches Some(m) ==> version_matches(m.version_req, version)
}

/// Builds the edge of a resolved dependency from the declarations of the
/// package that has it.
///
/// Fails where no declaration contributes to the edge, or where one that
/// does has a target that is no target specification.
pub fn build_edge(
    deps: &Vec<Dependency>,
    resolved_name: &str,
    to_name: &str,
    to_version: &str,
    current: &Option<Platform>,
) -> (r: Result<DependencyEdge, Error>)
    ensures
        match r {
            Ok(edge) => {
                let to = Resolved {
                    resolved_name: resolved_name@,
                    to_name: to_name@,
                    to_version: to_version@,
                };
                &&& edge_exists(deps@, to)
                &&& edge@ == edge_of(deps@, to, current_view(*current))
                &&& edge@.has_kind()
                &&& edge_accepts_version(edge@, to_version@)
            },
            Err(e) => !edge_exists(
                deps@,
                Resolved { resolved_name: resolved_name@, to_name: to_name@, to_version: to_version@ },
            ) && e is PackageGraphConstructError,
        },
{
    let ghost to = Resolved {
        resolved_name: resolved_name@,
        to_name: to_name@,
        to_version: to_version@,
    };
    let flags = contributing(deps, resolved_name, to_name, to_version);
    let mut normal = KindBuilder::new();
    let mut build = KindBuilder::new();
    let mut dev = KindBuilder::new();
    let mut dep_name: Option<String> = None;
    let mut i: usize = 0;
    while i < deps.len()
        invariant
            i <= deps.len(),
            flags.len() == deps.len(),
            to == (Resolved {
                resolved_name: resolved_name@,
                to_name: to_name@,
                to_version: to_version@,
            }),
            forall|k: int| 0 <= k < deps.len() ==> flags[k] == contributes(deps@, #[trigger] deps[k], to),
            normal.state() == kind_state(deps@, to, DependencyKind::Normal, i as nat),
            build.state() == kind_state(deps@, to, DependencyKind::Build, i as nat),
            dev.state() == kind_state(deps@, to, DependencyKind::Development, i as nat),
            normal.count <= i && build.count <= i && dev.count <= i,
            forall|k: int| 0 <= k < i && contributes(deps@, #[trigger] deps[k], to) ==> target_valid(deps[k]),
            normal.count > 0 ==> version_matches(normal.first_req@, to.to_version),
            build.count > 0 ==> version_matches(build.first_req@, to.to_version),
            dev.count > 0 ==> version_matches(dev.first_req@, to.to_version),
            match dep_name {
                Some(name) => {
                    let first = first_contributing(deps@, to, 0);
                    first < i && name@ == written_name(deps[first]) && (normal.count > 0
                        || build.count > 0 || dev.count > 0)
                },
                None => first_contributing(deps@, to, 0) == first_contributing(deps@, to, i as int),
            },
        decreases deps.len() - i,
    {
        if flags[i] {
            let d = &deps[i];
            if dep_name.is_none() {
                dep_name = Some(
                    match &d.rename {
                        Some(r) => r.clone(),
                        None => d.name.clone(),
                    },
                );
            }
            let added = match d.kind {
                DependencyKind::Normal => normal.add(d),
                DependencyKind::Build => build.add(d),
                DependencyKind::Development => dev.add(d),
            };
            match added {
                Ok(()) => {},
                Err(e) => {
                    assert(contributes(deps@, deps@[i as int], to) && !target_valid(deps@[i as int]));
                    return Err(e);
                },
            }
        }
        i = i + 1;
    }
    match dep_name {
        None => Err(
            Error::PackageGraphConstructError(
                crate::errors::join2("no dependency found matching package name ", to_name),
            ),
        ),
        Some(name) => Ok(
            DependencyEdge {
                dep_name: name,
                resolved_name: resolved_name.to_owned(),
                normal: normal.finish(current),
                build: build.finish(current),
                dev: dev.finish(current),
            },
        ),
    }
}

/// One entry of the features of a package: the name of a named feature
/// with what it enables, or the name of an optional dependency.
pub type FeatureEntry = (Seq<char>, Option<Seq<Seq<char>>>);

/// Whether the entries hold a feature of the given name.
pub open spec fn has_feature(entries: Seq<FeatureEntry>, name: Seq<char>) -> bool {
    exists|i: int| 0 <= i < entries.len() && (#[trigger] entries[i]).0 == name
}

/// The named features among the first `n` of a manifest, in their order;
/// a name that comes again is passed over.
pub open spec fn named_features(features: Seq<(String, Vec<String>)>, n: nat) -> Seq<FeatureEntry>
    decreases n,
{
    if n == 0 {
        Seq::empty()
    } else {
        let before = named_features(features, (n - 1) as nat);
        let f = features[n - 1];
        if has_feature(before, f.0@) {
            before
        } else {
            before.push((f.0@, Some(strings_view(f.1@))))
        }
    }
}

/// The entries, and behind them one for each optional dependency among the
/// first `n` declarations whose name is not there yet.
pub open spec fn with_optional_deps(entries: Seq<FeatureEntry>, deps: Seq<Dependency>, n: nat) -> Seq<
    FeatureEntry,
>
    decreases n,
{
    if n == 0 {
        entries
    } else {
        let before = with_optional_deps(entries, deps, (n - 1) as nat);
        let d = deps[n - 1];
        if d.optional && !has_feature(before, written_name(d)) {
            before.push((written_name(d), None))
        } else {
            before
        }
    }
}

/// The features of a package: its named features, then its optional
/// dependencies.
pub open spec fn features_of(pkg: crate::metadata::Package) -> Seq<FeatureEntry> {
    with_optional_deps(
        named_features(pkg.features@, pkg.features.len() as nat),
        pkg.dependencies@,
        pkg.dependencies.len() as nat,
    )
}

/// What a named feature enables, or nothing for an optional dependency.
pub open spec fn opt_strings_view(v: Option<Vec<String>>) -> Option<Seq<Seq<char>>> {
    match v {
        Some(v) => Some(strings_view(v@)),
        None => None,
    }
}

/// The entries that a table of names and a list of what they enable stand
/// for.
pub open spec fn feature_entries(names: Seq<Seq<char>>, enabled: Seq<Option<Vec<String>>>) -> Seq<
    FeatureEntry,
> {
    Seq::new(names.len(), |i: int| (names[i], opt_strings_view(enabled[i])))
}

proof fn lemma_has_feature(names: Seq<Seq<char>>, enabled: Seq<Option<Vec<String>>>, name: Seq<char>)
    ensures
        has_feature(feature_entries(names, enabled), name) <==> names.contains(name),
{
    let entries = feature_entries(names, enabled);
    if has_feature(entries, name) {
        let i = choose|i: int| 0 <= i < entries.len() && (#[trigger] entries[i]).0 == name;
        assert(names[i] == name);
    }
    if names.contains(name) {
        let i = choose|i: int| 0 <= i < names.len() && names[i] == name;
        assert(entries[i].0 == name);
    }
}

/// Builds the table of the features of a package.
pub fn build_features(pkg: &crate::metadata::Package) -> (r: (
    indexmap::IndexSet<String, std::collections::hash_map::RandomState>,
    Vec<Option<Vec<String>>>,
))
    ensures
        crate::indexmap_support::names_of(r.0).len() == r.1.len(),
        crate::indexmap_support::distinct_names(crate::indexmap_support::names_of(r.0)),
        feature_entries(crate::indexmap_support::names_of(r.0), r.1@) == features_of(*pkg),
{
    let mut names = crate::indexmap_support::names_new();
    let mut enabled: Vec<Option<Vec<String>>> = Vec::new();
    assert(feature_entries(crate::indexmap_support::names_of(names), enabled@) =~= Seq::empty());
    let mut i: usize = 0;
    while i < pkg.features.len()
        invariant
            i <= pkg.features.len(),
            crate::indexmap_support::names_of(names).len() == enabled.len(),
            crate::indexmap_support::distinct_names(crate::indexmap_support::names_of(names)),
            feature_entries(crate::indexmap_support::names_of(names), enabled@) == named_features(
                pkg.features@,
                i as nat,
            ),
        decreases pkg.features.len() - i,
    {
        let ghost before_names = crate::indexmap_support::names_of(names);
        let ghost before = enabled@;
        proof {
            lemma_has_feature(before_names, before, pkg.features[i as int].0@);
        }
        let (_, inserted) = crate::indexmap_support::names_insert(
            &mut names,
            pkg.features[i].0.clone(),
        );
        if inserted {
            enabled.push(Some(pkg.features[i].1.clone()));
            assert(feature_entries(crate::indexmap_support::names_of(names), enabled@)
                =~= feature_entries(before_names, before).push(
                (pkg.features[i as int].0@, Some(strings_view(pkg.features[i as int].1@))),
            ));
        }
        i = i + 1;
    }
    let mut j: usize = 0;
    while j < pkg.dependencies.len()
        invariant
            j <= pkg.dependencies.len(),
            crate::indexmap_support::names_of(names).len() == enabled.len(),
            crate::indexmap_support::distinct_names(crate::indexmap_support::names_of(names)),
            feature_entries(crate::indexmap_support::names_of(names), enabled@)
                == with_optional_deps(
                named_features(pkg.features@, pkg.features.len() as nat),
                pkg.dependencies@,
                j as nat,
            ),
        decreases pkg.dependencies.len() - j,
    {
        let d = &pkg.dependencies[j];
        if d.optional {
            let ghost before_names = crate::indexmap_support::names_of(names);
            let ghost before = enabled@;
            proof {
                lemma_has_feature(before_names, before, written_name(*d));
            }
            let name = match &d.rename {
                Some(r) => r.clone(),
                None => d.name.clone(),
            };
            let (_, inserted) = crate::indexmap_support::names_insert(&mut names, name);
            if inserted {
                enabled.push(None);
                assert(feature_entries(crate::indexmap_support::names_of(names), enabled@)
                    =~= feature_entries(before_names, before).push((written_name(*d), None)));
            }
        }
        j = j + 1;
    }
    (names, enabled)
}

} // verus!
