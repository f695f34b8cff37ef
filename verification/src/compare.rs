//! Support for comparing Cargo and this crate: the result of a resolution
//! as a map from packages to the features that are turned on.

use crate::cmdlib::PackagesAndFeatures;
use crate::errors::{Error, ErrorView};
use crate::cmdlib::{is_filter_of, starting_packages};
use crate::graph::cargo::{
    lemma_resolution_is_fixed, lemma_resolution_is_monotone, resolved, CargoOptions,
    CargoOptionsView, CargoResolverVersion, CargoSet,
};
use crate::graph::dependency::strings_view;
use crate::graph::feature::query::{filter_accepts, package_seeds, query_seeds, FeatureFilter};
use crate::graph::graph_impl::PackageGraphView;
use crate::graph::select::{first_member_named, first_unknown_name, member_named};
use crate::graph::PackageGraph;
use crate::graph::feature::construct::{base_node, feature_node};
use crate::graph::feature::query::{any_marked, FeatureSet};
use crate::graph::feature::FeatureGraph;
use crate::graph::graph_impl::PackageMetadataView;
use crate::petgraph_support::flag_set;
use crate::sorted::{StringSet, StringSetMap};
use crate::target_spec::evaluator::{EvalError, EvalErrorView};
use crate::target_spec::platform::{platform_of, Platform, TargetFeatures, TargetFeaturesView};
use vstd::prelude::*;

verus! {

/// The names of the features among the first `nf` of the package `p`
/// whose nodes are marked.
pub open spec fn names_marked(packages: Seq<PackageMetadataView>, marks: Seq<bool>, p: int, nf: int) -> Set<
    Seq<char>,
>
    decreases nf,
{
    if nf <= 0 {
        Set::empty()
    } else {
        let before = names_marked(packages, marks, p, nf - 1);
        if flag_set(marks, feature_node(packages, p, nf - 1)) {
            before.insert(packages[p].features[nf - 1].0)
        } else {
            before
        }
    }
}

/// The map from the identifiers of the first `np` packages, as far as a
/// node of the package is marked, to the names of its marked features.
pub open spec fn feature_map_of(packages: Seq<PackageMetadataView>, marks: Seq<bool>, np: int) -> Map<
    Seq<char>,
    Set<Seq<char>>,
>
    decreases np,
{
    if np <= 0 {
        Map::empty()
    } else {
        let before = feature_map_of(packages, marks, np - 1);
        let nf = packages[np - 1].features.len() as int;
        if any_marked(packages, marks, np - 1, nf) {
            before.insert(packages[np - 1].package.id@, names_marked(packages, marks, np - 1, nf))
        } else {
            before
        }
    }
}

/// The features that a build turns on, by package: for the target
/// platform and for the host platform.
#[derive(Clone, Debug, PartialEq, Eq)]
pub struct FeatureMap {
    pub target_map: StringSetMap,
    pub host_map: StringSetMap,
}

impl FeatureMap {
    /// The maps of the features of a set that Cargo's resolver gave. With
    /// `merge_maps`, both maps are that of the features that either
    /// platform needs.
    pub fn from_guppy(cargo_set: &CargoSet<'_>, merge_maps: bool) -> (r: Self)
        requires
            cargo_set.wf(),
        ensures
            r.target_map.wf(),
            r.host_map.wf(),
            r.target_map@ == feature_map_of(
                cargo_set.target().graph().package_graph()@.packages,
                if merge_maps {
                    Seq::new(
                        cargo_set.target().marks().len(),
                        |v: int| cargo_set.target().marks()[v] || cargo_set.host().marks()[v],
                    )
                } else {
                    cargo_set.target().marks()
                },
                cargo_set.target().graph().package_graph()@.packages.len() as int,
            ),
            r.host_map@ == feature_map_of(
                cargo_set.target().graph().package_graph()@.packages,
                if merge_maps {
                    Seq::new(
                        cargo_set.target().marks().len(),
                        |v: int| cargo_set.target().marks()[v] || cargo_set.host().marks()[v],
                    )
                } else {
                    cargo_set.host().marks()
                },
                cargo_set.target().graph().package_graph()@.packages.len() as int,
            ),
    {
        if merge_maps {
            let unified_set = cargo_set.target_features().union(cargo_set.host_features());
            assert(unified_set.marks() =~= Seq::new(
                cargo_set.target().marks().len(),
                |v: int| cargo_set.target().marks()[v] || cargo_set.host().marks()[v],
            ));
            let unified_map = Self::feature_set_to_map(&unified_set);
            Self { target_map: unified_map.duplicate(), host_map: unified_map }
        } else {
            let target_map = Self::feature_set_to_map(cargo_set.target_features());
            let host_map = Self::feature_set_to_map(cargo_set.host_features());
            Self { target_map, host_map }
        }
    }

    /// The map from the packages of which the set holds a node to the
    /// names of the features of them that the set holds.
    #[verifier::loop_isolation(false)]
    pub fn feature_set_to_map(feature_set: &FeatureSet<'_>) -> (r: StringSetMap)
        requires
            feature_set.wf(),
        ensures
            r.wf(),
            r@ == feature_map_of(
                feature_set.graph().package_graph()@.packages,
                feature_set.marks(),
                feature_set.graph().package_graph()@.packages.len() as int,
            ),
    {
        let features = feature_set.feature_graph();
        let graph = features.packages();
        let ghost pkgs = graph@.packages;
        let ghost marks = feature_set.marks();
        let n = graph.packages().len();
        let mut map = StringSetMap::new();
        let mut p: usize = 0;
        while p < n
            invariant
                p <= n,
                n == pkgs.len(),
                map.wf(),
                map@ == feature_map_of(pkgs, marks, p as int),
            decreases n - p,
        {
            let package = graph.package_at(p);
            let nf = package.feature_count();
            let mut any = feature_set.contains_ix(features.base_ix(p));
            let mut names = StringSet::new();
            let mut f: usize = 0;
            while f < nf
                invariant
                    f <= nf,
                    names.wf(),
                    any == any_marked(pkgs, marks, p as int, f as int),
                    names@ == names_marked(pkgs, marks, p as int, f as int),
                decreases nf - f,
            {
                if feature_set.contains_ix(features.feature_ix(p, f)) {
                    any = true;
                    names.insert(package.feature_name(f).to_owned());
                }
                f = f + 1;
            }
            if any {
                map.insert(package.id().repr.clone(), names);
            }
            p = p + 1;
        }
        map
    }
}

/// Options that are common to this crate and Cargo.
///
/// This crate supports more options than Cargo. This describes the minimal set that both support.
#[derive(Clone, Debug, PartialEq, Eq)]
pub struct GuppyCargoCommon {
    pub pf: PackagesAndFeatures,
    /// Include dev dependencies for initial packages
    pub include_dev: bool,
    /// Evaluate for the target triple (default: current platform)
    pub target_platform: Option<String>,
}

/// The options of the resolver that asks any platform.
pub open spec fn any_platform(include_dev: bool) -> CargoOptionsView {
    CargoOptionsView {
        version: CargoResolverVersion::V1,
        include_dev,
        host_platform: None,
        target_platform: None,
    }
}

/// Whether the marks are those of the features that the options resolve
/// to: what the resolver turns on, on any platform, from the packages and
/// the features that the options name.
pub open spec fn resolves_to(common: GuppyCargoCommon, graph: FeatureGraph, marks: Seq<bool>) -> bool {
    exists|from: Seq<usize>, filter: FeatureFilter| #[trigger]
        starting_packages(common.pf, *graph.package_graph(), from) && #[trigger] is_filter_of(
            filter,
            common.pf,
        ) && resolved(
            graph@,
            query_seeds(graph.package_graph()@.packages, from, filter, from.len() as int),
            any_platform(common.include_dev),
            marks,
        )
}

/// Whether the two maps of a feature map are that of the marked features.
pub open spec fn maps_of(map: FeatureMap, graph: FeatureGraph, marks: Seq<bool>) -> bool {
    &&& map.target_map.wf()
    &&& map.host_map.wf()
    &&& map.target_map@ == feature_map_of(
        graph.package_graph()@.packages,
        marks,
        graph.package_graph()@.packages.len() as int,
    )
    &&& map.host_map@ == map.target_map@
}

impl GuppyCargoCommon {
    /// Resolves data for this query.
    ///
    /// Fails on the first name of a package that no member of the
    /// workspace has. Every platform is taken to be asked for, as the
    /// first version of Cargo's resolver looks at the platform afterwards.
    pub fn resolve_guppy(&self, graph: &FeatureGraph<'_>) -> (r: Result<FeatureMap, Error>)
        requires
            graph.wf(),
        ensures
            r matches Ok(map) ==> exists|marks: Seq<bool>| #[trigger]
                resolves_to(*self, *graph, marks) && maps_of(map, *graph, marks),
            r matches Err(e) ==> crate::graph::select::is_unknown_name_error(
                graph.package_graph()@,
                self.pf.packages@,
                e,
            ),
    {
        let feature_query = match self.pf.make_feature_query(graph) {
            Ok(q) => q,
            Err(e) => {
                return Err(e);
            },
        };
        let cargo_opts = CargoOptions::new().with_version(CargoResolverVersion::V1).with_dev_deps(
            self.include_dev,
        ).with_host_platform(None).with_target_platform(None);
        proof {
            lemma_any_platform_never_fails(
                graph@.labels,
                cargo_opts@,
                graph@.labels.len() as int,
            );
        }
        let ghost seeds = feature_query.seeds();
        match feature_query.resolve_cargo(&cargo_opts) {
            Ok(cargo_set) => {
                let map = FeatureMap::from_guppy(&cargo_set, true);
                proof {
                    let marks = cargo_set.target().marks();
                    assert(Seq::new(
                        marks.len(),
                        |v: int| cargo_set.target().marks()[v] || cargo_set.host().marks()[v],
                    ) =~= marks);
                    assert(cargo_opts@ == any_platform(self.include_dev));
                    assert(resolves_to(*self, *graph, marks));
                    assert(maps_of(map, *graph, marks));
                }
                Ok(map)
            },
            Err(e) => Err(e),
        }
    }

    /// Returns a `Platform` corresponding to the target platform: that of
    /// the triple of these options, or else the current one.
    pub fn make_target_platform(&self, current: Option<Platform>) -> (r: Result<Platform, Error>)
        ensures
            match self.target_platform {
                Some(triple) => match platform_of(triple@, TargetFeaturesView::All) {
                    Some(p) => r matches Ok(found) && found@ == p,
                    None => r matches Err(e) && e@ == (ErrorView::TargetEvalError {
                        platform: triple@,
                        err: EvalErrorView::TargetNotFound,
                    }),
                },
                None => match current {
                    Some(p) => r == Ok::<Platform, Error>(p),
                    None => r matches Err(e) && e@ == ErrorView::UnknownCurrentPlatform,
                },
            },
    {
        match &self.target_platform {
            Some(triple) => match Platform::new(triple.as_str(), TargetFeatures::All) {
                Some(p) => Ok(p),
                None => Err(
                    Error::TargetEvalError {
                        platform: triple.clone(),
                        err: EvalError::TargetNotFound,
                    },
                ),
            },
            None => match current {
                Some(p) => Ok(p),
                None => Err(Error::UnknownCurrentPlatform),
            },
        }
    }
}

/// Where any platform is asked for, the resolver evaluates no target
/// specification, and so it does not fail.
pub proof fn lemma_any_platform_never_fails(
    labels: Seq<crate::graph::feature::construct::FeatureEdgeView>,
    opts: crate::graph::cargo::CargoOptionsView,
    n: int,
)
    requires
        opts.target_platform is None,
        opts.host_platform is None,
        0 <= n <= labels.len(),
    ensures
        crate::graph::cargo::enabled_labels(labels, opts, n) is Ok,
    decreases n,
{
    if n > 0 {
        lemma_any_platform_never_fails(labels, opts, n - 1);
    }
}

/// The packages that options start from are fixed by the options and the
/// graph.
pub proof fn lemma_starting_packages_fixed(
    pf: PackagesAndFeatures,
    graph: PackageGraph,
    a: Seq<usize>,
    b: Seq<usize>,
)
    requires
        graph.wf(),
        starting_packages(pf, graph, a),
        starting_packages(pf, graph, b),
    ensures
        a == b,
{
    let g = graph@;
    assert forall|k: int| 0 <= k < a.len() implies a[k] == b[k] by {
        if pf.packages.len() == 0 {
            assert(g.packages[a[k] as int].package.id@ == g.packages[b[k] as int].package.id@);
        } else {
            assert(first_member_named(g, a[k] as int, pf.packages[k]@));
            assert(first_member_named(g, b[k] as int, pf.packages[k]@));
        }
    }
    assert(a =~= b);
}

/// Whether the second filter takes every feature that the first takes.
pub open spec fn takes_no_less(first: FeatureFilter, second: FeatureFilter) -> bool {
    forall|feature: (Seq<char>, Option<Seq<Seq<char>>>)| #[trigger]
        filter_accepts(first, feature) ==> filter_accepts(second, feature)
}

/// A filter that takes no less gives a package no fewer nodes to start
/// from.
pub proof fn lemma_package_seeds_grow(
    packages: Seq<PackageMetadataView>,
    p: int,
    first: FeatureFilter,
    second: FeatureFilter,
    nf: int,
    node: usize,
)
    requires
        takes_no_less(first, second),
        package_seeds(packages, p, first, nf).contains(node),
    ensures
        package_seeds(packages, p, second, nf).contains(node),
    decreases nf,
{
    let a = package_seeds(packages, p, first, nf);
    let b = package_seeds(packages, p, second, nf);
    if nf <= 0 {
        assert(a == b);
    } else {
        let x = package_seeds(packages, p, first, nf - 1);
        let y = package_seeds(packages, p, second, nf - 1);
        let i = choose|i: int| 0 <= i < a.len() && a[i] == node;
        if i < x.len() {
            assert(x[i] == node);
            lemma_package_seeds_grow(packages, p, first, second, nf - 1, node);
            let j = choose|j: int| 0 <= j < y.len() && y[j] == node;
            assert(b[j] == node);
        } else {
            assert(filter_accepts(first, packages[p].features[nf - 1]));
            assert(filter_accepts(second, packages[p].features[nf - 1]));
            assert(b[y.len() as int] == node);
        }
    }
}

/// A filter that takes no less gives a query no fewer nodes to start
/// from.
pub proof fn lemma_query_seeds_grow(
    packages: Seq<PackageMetadataView>,
    from: Seq<usize>,
    first: FeatureFilter,
    second: FeatureFilter,
    n: int,
    node: usize,
)
    requires
        takes_no_less(first, second),
        query_seeds(packages, from, first, n).contains(node),
    ensures
        query_seeds(packages, from, second, n).contains(node),
    decreases n,
{
    let a = query_seeds(packages, from, first, n);
    let b = query_seeds(packages, from, second, n);
    if n > 0 {
        let x = query_seeds(packages, from, first, n - 1);
        let y = query_seeds(packages, from, second, n - 1);
        let p = from[n - 1] as int;
        let nf = packages[p].features.len() as int;
        let u = package_seeds(packages, p, first, nf);
        let v = package_seeds(packages, p, second, nf);
        let i = choose|i: int| 0 <= i < a.len() && a[i] == node;
        if i < x.len() {
            assert(x[i] == node);
            lemma_query_seeds_grow(packages, from, first, second, n - 1, node);
            let j = choose|j: int| 0 <= j < y.len() && y[j] == node;
            assert(b[j] == node);
        } else {
            assert(u[i - x.len()] == node);
            lemma_package_seeds_grow(packages, p, first, second, nf, node);
            let j = choose|j: int| 0 <= j < v.len() && v[j] == node;
            assert(b[y.len() + j] == node);
        }
    }
}

/// Filters that take the same features give a query the same nodes to
/// start from.
pub proof fn lemma_query_seeds_fixed(
    packages: Seq<PackageMetadataView>,
    from: Seq<usize>,
    first: FeatureFilter,
    second: FeatureFilter,
    n: int,
)
    requires
        takes_no_less(first, second),
        takes_no_less(second, first),
    ensures
        query_seeds(packages, from, first, n) == query_seeds(packages, from, second, n),
    decreases n,
{
    if n > 0 {
        lemma_query_seeds_fixed(packages, from, first, second, n - 1);
        let p = from[n - 1] as int;
        lemma_package_seeds_fixed(packages, p, first, second, packages[p].features.len() as int);
    }
}

/// Filters that take the same features give a package the same nodes to
/// start from.
pub proof fn lemma_package_seeds_fixed(
    packages: Seq<PackageMetadataView>,
    p: int,
    first: FeatureFilter,
    second: FeatureFilter,
    nf: int,
)
    requires
        takes_no_less(first, second),
        takes_no_less(second, first),
    ensures
        package_seeds(packages, p, first, nf) == package_seeds(packages, p, second, nf),
    decreases nf,
{
    if nf > 0 {
        lemma_package_seeds_fixed(packages, p, first, second, nf - 1);
        let feature = packages[p].features[nf - 1];
        assert(filter_accepts(first, feature) == filter_accepts(second, feature));
    }
}

/// The filter of options with more features named takes no less.
pub proof fn lemma_filter_grows(
    pf: PackagesAndFeatures,
    more: PackagesAndFeatures,
    first: FeatureFilter,
    second: FeatureFilter,
)
    requires
        is_filter_of(first, pf),
        is_filter_of(second, more),
        pf.all_features == more.all_features,
        pf.no_default_features == more.no_default_features,
        forall|x: Seq<char>|
            strings_view(pf.features@).contains(x) ==> strings_view(more.features@).contains(x),
    ensures
        takes_no_less(first, second),
{
    assert forall|feature: (Seq<char>, Option<Seq<Seq<char>>>)| #[trigger]
        filter_accepts(first, feature) implies filter_accepts(second, feature) by {
        reveal_with_fuel(filter_accepts, 2);
    }
}

/// Whether a member of the workspace has the name.
pub open spec fn is_member_name(g: PackageGraphView, name: Seq<char>) -> bool {
    exists|i: int| member_named(g, i, name)
}

/// From the `k`th on, none of the names is unknown where each is that of
/// a member of the workspace.
pub proof fn lemma_names_known(g: PackageGraphView, names: Seq<String>, k: int)
    requires
        0 <= k,
        forall|j: int| k <= j < names.len() ==> is_member_name(g, (#[trigger] names[j])@),
    ensures
        first_unknown_name(g, names, k) is None,
    decreases names.len() - k,
{
    if k < names.len() {
        assert(is_member_name(g, names[k]@));
        lemma_names_known(g, names, k + 1);
    }
}

/// Whether options resolve or fail is fixed by the options and the graph:
/// where they resolve to something, no name of them is unknown.
pub proof fn lemma_resolves_or_fails(common: GuppyCargoCommon, graph: FeatureGraph, marks: Seq<bool>, e: Error)
    requires
        resolves_to(common, graph, marks),
    ensures
        !crate::graph::select::is_unknown_name_error(graph.package_graph()@, common.pf.packages@, e),
{
    let g = graph.package_graph()@;
    let names = common.pf.packages@;
    let (from, filter) = choose|from: Seq<usize>, filter: FeatureFilter| #[trigger]
        starting_packages(common.pf, *graph.package_graph(), from) && #[trigger] is_filter_of(
            filter,
            common.pf,
        ) && resolved(
            graph@,
            query_seeds(g.packages, from, filter, from.len() as int),
            any_platform(common.include_dev),
            marks,
        );
    if names.len() > 0 {
        assert forall|j: int| 0 <= j < names.len() implies is_member_name(
            g,
            (#[trigger] names[j])@,
        ) by {
            assert(first_member_named(g, from[j] as int, names[j]@));
            assert(member_named(g, from[j] as int, names[j]@));
        }
        lemma_names_known(g, names, 0);
    }
}

/// Resolving twice gives the same: the features that options resolve to
/// on a graph are fixed by the options and the graph, and so are the maps
/// of them.
pub proof fn lemma_resolve_guppy_is_fixed(
    common: GuppyCargoCommon,
    graph: FeatureGraph,
    first: Seq<bool>,
    second: Seq<bool>,
    first_map: FeatureMap,
    second_map: FeatureMap,
)
    requires
        graph.wf(),
        resolves_to(common, graph, first),
        resolves_to(common, graph, second),
        maps_of(first_map, graph, first),
        maps_of(second_map, graph, second),
    ensures
        first == second,
        first_map.target_map@ == second_map.target_map@,
        first_map.host_map@ == second_map.host_map@,
        first_map.target_map.keys_in_order() == second_map.target_map.keys_in_order(),
        first_map.host_map.keys_in_order() == second_map.host_map.keys_in_order(),
{
    let packages = graph.package_graph()@.packages;
    let (from1, filter1) = choose|from: Seq<usize>, filter: FeatureFilter| #[trigger]
        starting_packages(common.pf, *graph.package_graph(), from) && #[trigger] is_filter_of(
            filter,
            common.pf,
        ) && resolved(
            graph@,
            query_seeds(packages, from, filter, from.len() as int),
            any_platform(common.include_dev),
            first,
        );
    let (from2, filter2) = choose|from: Seq<usize>, filter: FeatureFilter| #[trigger]
        starting_packages(common.pf, *graph.package_graph(), from) && #[trigger] is_filter_of(
            filter,
            common.pf,
        ) && resolved(
            graph@,
            query_seeds(packages, from, filter, from.len() as int),
            any_platform(common.include_dev),
            second,
        );
    lemma_starting_packages_fixed(common.pf, *graph.package_graph(), from1, from2);
    lemma_filter_grows(common.pf, common.pf, filter1, filter2);
    lemma_filter_grows(common.pf, common.pf, filter2, filter1);
    lemma_query_seeds_fixed(packages, from1, filter1, filter2, from1.len() as int);
    lemma_resolution_is_fixed(
        graph@,
        query_seeds(packages, from1, filter1, from1.len() as int),
        any_platform(common.include_dev),
        first,
        second,
    );
    first_map.target_map.lemma_order_fixed(&second_map.target_map);
    first_map.host_map.lemma_order_fixed(&second_map.host_map);
}

/// Whether every mark that is set in the first list is set in the second.
pub open spec fn marks_grow(marks: Seq<bool>, more: Seq<bool>) -> bool {
    forall|v: int| flag_set(marks, v) ==> #[trigger] flag_set(more, v)
}

/// With more marks, no fewer packages have a marked node.
pub proof fn lemma_any_marked_grows(
    packages: Seq<PackageMetadataView>,
    marks: Seq<bool>,
    more: Seq<bool>,
    p: int,
    nf: int,
)
    requires
        marks_grow(marks, more),
        any_marked(packages, marks, p, nf),
    ensures
        any_marked(packages, more, p, nf),
    decreases nf,
{
    if nf <= 0 {
        assert(flag_set(more, base_node(packages, p)));
    } else if any_marked(packages, marks, p, nf - 1) {
        lemma_any_marked_grows(packages, marks, more, p, nf - 1);
    } else {
        assert(flag_set(more, feature_node(packages, p, nf - 1)));
    }
}

/// With more marks, no fewer features of a package are marked.
pub proof fn lemma_names_marked_grow(
    packages: Seq<PackageMetadataView>,
    marks: Seq<bool>,
    more: Seq<bool>,
    p: int,
    nf: int,
)
    requires
        marks_grow(marks, more),
    ensures
        names_marked(packages, marks, p, nf).subset_of(names_marked(packages, more, p, nf)),
    decreases nf,
{
    if nf > 0 {
        lemma_names_marked_grow(packages, marks, more, p, nf - 1);
        if flag_set(marks, feature_node(packages, p, nf - 1)) {
            assert(flag_set(more, feature_node(packages, p, nf - 1)));
        }
    }
}

/// The keys of the map of the marked features are identifiers of the
/// packages that it was made of.
pub proof fn lemma_feature_map_keys(
    packages: Seq<PackageMetadataView>,
    marks: Seq<bool>,
    np: int,
    id: Seq<char>,
)
    requires
        0 <= np <= packages.len(),
        feature_map_of(packages, marks, np).dom().contains(id),
    ensures
        exists|p: int| 0 <= p < np && (#[trigger] packages[p]).package.id@ == id,
    decreases np,
{
    if np > 0 {
        if packages[np - 1].package.id@ != id {
            lemma_feature_map_keys(packages, marks, np - 1, id);
        }
    }
}

/// With more marks, the map of the marked features loses no package and
/// no feature of a package.
pub proof fn lemma_feature_map_grows(
    packages: Seq<PackageMetadataView>,
    marks: Seq<bool>,
    more: Seq<bool>,
    np: int,
    id: Seq<char>,
)
    requires
        0 <= np <= packages.len(),
        forall|i: int, j: int|
            0 <= i < packages.len() && 0 <= j < packages.len() && i != j ==> (
            #[trigger] packages[i]).package.id@ != (#[trigger] packages[j]).package.id@,
        marks_grow(marks, more),
        feature_map_of(packages, marks, np).dom().contains(id),
    ensures
        feature_map_of(packages, more, np).dom().contains(id),
        feature_map_of(packages, marks, np)[id].subset_of(feature_map_of(packages, more, np)[id]),
    decreases np,
{
    if np > 0 {
        let p = np - 1;
        let nf = packages[p].features.len() as int;
        if packages[p].package.id@ == id {
            if feature_map_of(packages, marks, p).dom().contains(id) {
                lemma_feature_map_keys(packages, marks, p, id);
            }
            assert(any_marked(packages, marks, p, nf));
            lemma_any_marked_grows(packages, marks, more, p, nf);
            lemma_names_marked_grow(packages, marks, more, p, nf);
        } else {
            lemma_feature_map_grows(packages, marks, more, p, id);
        }
    }
}

/// A package of which a node is marked is in the map of the marked
/// features.
pub proof fn lemma_feature_map_has_package(
    packages: Seq<PackageMetadataView>,
    marks: Seq<bool>,
    np: int,
    p: int,
)
    requires
        0 <= p < np <= packages.len(),
        any_marked(packages, marks, p, packages[p].features.len() as int),
    ensures
        feature_map_of(packages, marks, np).dom().contains(packages[p].package.id@),
    decreases np,
{
    if p < np - 1 {
        lemma_feature_map_has_package(packages, marks, np - 1, p);
    }
}

/// A feature whose node is marked is in the map of the marked features,
/// under its package.
pub proof fn lemma_feature_map_has_feature(
    packages: Seq<PackageMetadataView>,
    marks: Seq<bool>,
    np: int,
    p: int,
    f: int,
)
    requires
        0 <= p < np <= packages.len(),
        0 <= f < packages[p].features.len(),
        forall|i: int, j: int|
            0 <= i < packages.len() && 0 <= j < packages.len() && i != j ==> (
            #[trigger] packages[i]).package.id@ != (#[trigger] packages[j]).package.id@,
        flag_set(marks, feature_node(packages, p, f)),
    ensures
        feature_map_of(packages, marks, np).dom().contains(packages[p].package.id@),
        feature_map_of(packages, marks, np)[packages[p].package.id@].contains(
            packages[p].features[f].0,
        ),
    decreases np,
{
    let nf = packages[p].features.len() as int;
    if p < np - 1 {
        lemma_feature_map_has_feature(packages, marks, np - 1, p, f);
        assert(packages[np - 1].package.id@ != packages[p].package.id@);
    } else {
        lemma_marked_feature_counts(packages, marks, p, nf, f);
    }
}

/// A feature whose node is marked makes its package one with a marked
/// node, and its name one of the marked names.
pub proof fn lemma_marked_feature_counts(
    packages: Seq<PackageMetadataView>,
    marks: Seq<bool>,
    p: int,
    nf: int,
    f: int,
)
    requires
        0 <= f < nf,
        flag_set(marks, feature_node(packages, p, f)),
    ensures
        any_marked(packages, marks, p, nf),
        names_marked(packages, marks, p, nf).contains(packages[p].features[f].0),
    decreases nf,
{
    if f < nf - 1 {
        lemma_marked_feature_counts(packages, marks, p, nf - 1, f);
    }
}

/// A query starts from the base of each of its packages, and from each
/// feature of them that the filter takes.
pub proof fn lemma_query_seeds_has(
    packages: Seq<PackageMetadataView>,
    from: Seq<usize>,
    filter: FeatureFilter,
    n: int,
    k: int,
    f: int,
)
    requires
        0 <= k < n <= from.len(),
    ensures
        query_seeds(packages, from, filter, n).contains(base_node(packages, from[k] as int) as usize),
        0 <= f < packages[from[k] as int].features.len() && filter_accepts(
            filter,
            packages[from[k] as int].features[f],
        ) ==> query_seeds(packages, from, filter, n).contains(
            feature_node(packages, from[k] as int, f) as usize,
        ),
    decreases n,
{
    let all = query_seeds(packages, from, filter, n);
    let before = query_seeds(packages, from, filter, n - 1);
    let p = from[n - 1] as int;
    let nf = packages[p].features.len() as int;
    let last = package_seeds(packages, p, filter, nf);
    if k < n - 1 {
        lemma_query_seeds_has(packages, from, filter, n - 1, k, f);
        let b = base_node(packages, from[k] as int) as usize;
        let i = choose|i: int| 0 <= i < before.len() && before[i] == b;
        assert(all[i] == b);
        if 0 <= f < packages[from[k] as int].features.len() && filter_accepts(
            filter,
            packages[from[k] as int].features[f],
        ) {
            let x = feature_node(packages, from[k] as int, f) as usize;
            let j = choose|j: int| 0 <= j < before.len() && before[j] == x;
            assert(all[j] == x);
        }
    } else {
        lemma_package_seeds_has(packages, p, filter, nf, f);
        let b = base_node(packages, p) as usize;
        let i = choose|i: int| 0 <= i < last.len() && last[i] == b;
        assert(all[before.len() + i] == b);
        if 0 <= f < nf && filter_accepts(filter, packages[p].features[f]) {
            let x = feature_node(packages, p, f) as usize;
            let j = choose|j: int| 0 <= j < last.len() && last[j] == x;
            assert(all[before.len() + j] == x);
        }
    }
}

/// A query starts from the base of a package, and from each feature of it
/// that the filter takes.
pub proof fn lemma_package_seeds_has(
    packages: Seq<PackageMetadataView>,
    p: int,
    filter: FeatureFilter,
    nf: int,
    f: int,
)
    ensures
        package_seeds(packages, p, filter, nf).contains(base_node(packages, p) as usize),
        0 <= f < nf && filter_accepts(filter, packages[p].features[f]) ==> package_seeds(
            packages,
            p,
            filter,
            nf,
        ).contains(feature_node(packages, p, f) as usize),
    decreases nf,
{
    let all = package_seeds(packages, p, filter, nf);
    if nf <= 0 {
        assert(all[0] == base_node(packages, p) as usize);
    } else {
        let before = package_seeds(packages, p, filter, nf - 1);
        lemma_package_seeds_has(packages, p, filter, nf - 1, f);
        let b = base_node(packages, p) as usize;
        let i = choose|i: int| 0 <= i < before.len() && before[i] == b;
        assert(all[i] == b);
        if 0 <= f < nf - 1 && filter_accepts(filter, packages[p].features[f]) {
            let x = feature_node(packages, p, f) as usize;
            let j = choose|j: int| 0 <= j < before.len() && before[j] == x;
            assert(all[j] == x);
        }
        if f == nf - 1 && filter_accepts(filter, packages[p].features[f]) {
            assert(all[before.len() as int] == feature_node(packages, p, f) as usize);
        }
    }
}

/// Options turn on what they name: the package that a name of them stands
/// for, and each feature of it that they name, are among the features
/// that the options resolve to, and so in the maps.
pub proof fn lemma_options_turn_on_what_they_name(
    common: GuppyCargoCommon,
    graph: FeatureGraph,
    marks: Seq<bool>,
    map: FeatureMap,
    k: int,
    p: int,
    f: int,
)
    requires
        graph.wf(),
        resolves_to(common, graph, marks),
        maps_of(map, graph, marks),
        0 <= k < common.pf.packages.len(),
        first_member_named(graph.package_graph()@, p, common.pf.packages[k]@),
        0 <= f < graph.package_graph()@.packages[p].features.len(),
        strings_view(common.pf.features@).contains(graph.package_graph()@.packages[p].features[f].0),
    ensures
        flag_set(marks, base_node(graph.package_graph()@.packages, p)),
        flag_set(marks, feature_node(graph.package_graph()@.packages, p, f)),
        map.target_map@.dom().contains(graph.package_graph()@.packages[p].package.id@),
        map.target_map@[graph.package_graph()@.packages[p].package.id@].contains(
            graph.package_graph()@.packages[p].features[f].0,
        ),
{
    let g = graph.package_graph()@;
    let packages = g.packages;
    let (from, filter) = choose|from: Seq<usize>, filter: FeatureFilter| #[trigger]
        starting_packages(common.pf, *graph.package_graph(), from) && #[trigger] is_filter_of(
            filter,
            common.pf,
        ) && resolved(
            graph@,
            query_seeds(packages, from, filter, from.len() as int),
            any_platform(common.include_dev),
            marks,
        );
    assert(first_member_named(g, from[k] as int, common.pf.packages[k]@));
    assert(from[k] as int == p);
    assert(filter_accepts(filter, packages[p].features[f])) by {
        reveal_with_fuel(filter_accepts, 2);
    }
    let seeds = query_seeds(packages, from, filter, from.len() as int);
    lemma_query_seeds_has(packages, from, filter, from.len() as int, k, f);
    crate::graph::feature::construct::lemma_feature_node_fits(packages, p, f);
    crate::graph::feature::construct::lemma_base_node_fits(packages, p);
    let b = base_node(packages, p) as usize;
    let x = feature_node(packages, p, f) as usize;
    let i = choose|i: int| 0 <= i < seeds.len() && seeds[i] == b;
    let j = choose|j: int| 0 <= j < seeds.len() && seeds[j] == x;
    crate::graph::cargo::lemma_seeds_are_resolved(
        graph@,
        seeds,
        any_platform(common.include_dev),
        marks,
        i,
    );
    crate::graph::cargo::lemma_seeds_are_resolved(
        graph@,
        seeds,
        any_platform(common.include_dev),
        marks,
        j,
    );
    lemma_feature_map_has_feature(packages, marks, packages.len() as int, p, f);
}

/// Adding a feature to options takes nothing away: with the same
/// packages and more features named, no package and no feature leaves the
/// maps that the options resolve to.
pub proof fn lemma_resolve_guppy_is_monotone(
    common: GuppyCargoCommon,
    more: GuppyCargoCommon,
    graph: FeatureGraph,
    marks: Seq<bool>,
    more_marks: Seq<bool>,
    map: FeatureMap,
    more_map: FeatureMap,
    id: Seq<char>,
)
    requires
        graph.wf(),
        common.pf.packages == more.pf.packages,
        common.pf.all_features == more.pf.all_features,
        common.pf.no_default_features == more.pf.no_default_features,
        common.include_dev == more.include_dev,
        forall|x: Seq<char>|
            strings_view(common.pf.features@).contains(x) ==> strings_view(
                more.pf.features@,
            ).contains(x),
        resolves_to(common, graph, marks),
        resolves_to(more, graph, more_marks),
        maps_of(map, graph, marks),
        maps_of(more_map, graph, more_marks),
        map.target_map@.dom().contains(id),
    ensures
        marks_grow(marks, more_marks),
        more_map.target_map@.dom().contains(id),
        map.target_map@[id].subset_of(more_map.target_map@[id]),
        more_map.host_map@.dom().contains(id),
        map.host_map@[id].subset_of(more_map.host_map@[id]),
{
    let packages = graph.package_graph()@.packages;
    let (from1, filter1) = choose|from: Seq<usize>, filter: FeatureFilter| #[trigger]
        starting_packages(common.pf, *graph.package_graph(), from) && #[trigger] is_filter_of(
            filter,
            common.pf,
        ) && resolved(
            graph@,
            query_seeds(packages, from, filter, from.len() as int),
            any_platform(common.include_dev),
            marks,
        );
    let (from2, filter2) = choose|from: Seq<usize>, filter: FeatureFilter| #[trigger]
        starting_packages(more.pf, *graph.package_graph(), from) && #[trigger] is_filter_of(
            filter,
            more.pf,
        ) && resolved(
            graph@,
            query_seeds(packages, from, filter, from.len() as int),
            any_platform(more.include_dev),
            more_marks,
        );
    assert(starting_packages(common.pf, *graph.package_graph(), from2));
    lemma_starting_packages_fixed(common.pf, *graph.package_graph(), from1, from2);
    lemma_filter_grows(common.pf, more.pf, filter1, filter2);
    let seeds = query_seeds(packages, from1, filter1, from1.len() as int);
    let more_seeds = query_seeds(packages, from1, filter2, from1.len() as int);
    assert forall|k: int| 0 <= k < seeds.len() implies more_seeds.contains(#[trigger] seeds[k]) by {
        assert(seeds.contains(seeds[k]));
        lemma_query_seeds_grow(packages, from1, filter1, filter2, from1.len() as int, seeds[k]);
    }
    assert forall|v: int| flag_set(marks, v) implies #[trigger] flag_set(more_marks, v) by {
        lemma_resolution_is_monotone(
            graph@,
            seeds,
            more_seeds,
            any_platform(common.include_dev),
            marks,
            more_marks,
            v,
        );
    }
    lemma_feature_map_grows(packages, marks, more_marks, packages.len() as int, id);
}

/// Options for comparisons with Cargo.
#[derive(Clone, Debug, PartialEq, Eq)]
pub struct DiffOpts {
    pub common: GuppyCargoCommon,
}

impl DiffOpts {
    /// Resolves the query of these options.
    pub fn resolve_guppy(&self, graph: &FeatureGraph<'_>) -> (r: Result<FeatureMap, Error>)
        requires
            graph.wf(),
        ensures
            r matches Ok(map) ==> exists|marks: Seq<bool>| #[trigger]
                resolves_to(self.common, *graph, marks) && maps_of(map, *graph, marks),
            r matches Err(e) ==> crate::graph::select::is_unknown_name_error(
                graph.package_graph()@,
                self.common.pf.packages@,
                e,
            ),
    {
        self.common.resolve_guppy(graph)
    }
}

/// The commands of the comparison.
#[derive(Clone, Debug, PartialEq, Eq)]
pub enum Command {
    /// Perform a diff of Cargo's results against this crate's
    Diff(DiffOpts),
}

/// The comparison with Cargo, as the command line asks for it.
#[derive(Clone, Debug, PartialEq, Eq)]
pub struct CargoCompare {
    pub cmd: Command,
}

} // verus!
