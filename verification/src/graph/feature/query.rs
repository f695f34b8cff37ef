//! Queries over the feature graph, and the sets of features that they
//! resolve to.

use crate::errors::{Error, ErrorView};
use crate::graph::feature::construct::{
    base_node, feature_index, feature_node, find_feature, FeatureNode,
};
use crate::graph::feature::feature_graph::{FeatureGraph, FeatureGraphView};
use crate::graph::graph_impl::{PackageGraph, PackageGraphView, PackageMetadata, PackageMetadataView};
use crate::graph::ingest::contains_string;
use crate::graph::select::{copy_of, reverse_of, PackageQuery};
use crate::metadata::PackageId;
use crate::petgraph_support::{flag_set, DependencyDirection};
use crate::reach::reached;
use vstd::prelude::*;

verus! {

/// An identifier for a (package, feature) pair in a feature graph: a
/// package with the name of one of its features, or the package itself,
/// its "base".
#[derive(Clone, Copy, Debug, PartialEq, Eq)]
pub struct FeatureId<'a> {
    pub package_id: &'a PackageId,
    pub feature: Option<&'a str>,
}

impl<'a> FeatureId<'a> {
    /// Creates a new `FeatureId`.
    pub fn new(package_id: &'a PackageId, feature: &'a str) -> (r: Self)
        ensures
            r.package_id == package_id,
            r.feature == Some(feature),
    {
        Self { package_id, feature: Some(feature) }
    }

    /// Creates a new `FeatureId` representing the "base" feature for a package.
    pub fn base(package_id: &'a PackageId) -> (r: Self)
        ensures
            r.package_id == package_id,
            r.feature is None,
    {
        Self { package_id, feature: None }
    }

    /// Returns the package ID.
    pub fn package_id(&self) -> (r: &'a PackageId)
        ensures
            r == self.package_id,
    {
        self.package_id
    }

    /// Returns the name of the feature, or `None` for the "base" feature.
    pub fn feature(&self) -> (r: Option<&'a str>)
        ensures
            r == self.feature,
    {
        self.feature
    }
}

/// Whether `ix` is the index of the node with the identifier: the base
/// node of the package with the identifier's package ID, or the node of
/// its feature of the identifier's name.
pub open spec fn is_node_of(pg: PackageGraphView, feature_id: FeatureId, ix: int) -> bool {
    exists|p: int|
        {
            &&& 0 <= p < pg.packages.len()
            &&& (#[trigger] pg.packages[p]).package.id@ == feature_id.package_id@
            &&& match feature_id.feature {
                None => ix == base_node(pg.packages, p),
                Some(name) => feature_index(pg.packages[p].features, name@) matches Some(f) && ix
                    == feature_node(pg.packages, p, f),
            }
        }
}

/// Whether the graph has no node with the identifier.
pub open spec fn has_no_node(pg: PackageGraphView, feature_id: FeatureId) -> bool {
    forall|p: int|
        0 <= p < pg.packages.len() && (#[trigger] pg.packages[p]).package.id@
            == feature_id.package_id@ ==> (feature_id.feature matches Some(name) && feature_index(
            pg.packages[p].features,
            name@,
        ) is None)
}

/// The error for an identifier that the graph has no node of.
pub open spec fn unknown_feature(feature_id: FeatureId) -> ErrorView {
    ErrorView::UnknownFeatureId(
        feature_id.package_id@,
        match feature_id.feature {
            Some(name) => Some(name@),
            None => None,
        },
    )
}

/// A filter for the features of a package that a query starts from.
#[derive(Debug, PartialEq, Eq)]
pub enum FeatureFilter {
    /// Every feature.
    All,
    /// No feature.
    NoFeatures,
    /// The named feature `default`, where the package has one.
    Default,
    /// What the base filter takes, and the features of the given names.
    Features { base: Box<FeatureFilter>, names: Vec<String> },
}

/// Whether a filter takes a feature.
pub open spec fn filter_accepts(filter: FeatureFilter, feature: (Seq<char>, Option<Seq<Seq<char>>>)) -> bool
    decreases filter,
{
    match filter {
        FeatureFilter::All => true,
        FeatureFilter::NoFeatures => false,
        FeatureFilter::Default => feature.0 == "default"@ && feature.1 is Some,
        FeatureFilter::Features { base, names } => filter_accepts(*base, feature)
            || crate::graph::dependency::strings_view(names@).contains(feature.0),
    }
}

/// Returns a feature filter that selects all features from all packages.
pub fn all_filter() -> (r: FeatureFilter)
    ensures
        r == FeatureFilter::All,
{
    FeatureFilter::All
}

/// Returns a feature filter that selects no features from any packages.
pub fn none_filter() -> (r: FeatureFilter)
    ensures
        r == FeatureFilter::NoFeatures,
{
    FeatureFilter::NoFeatures
}

/// Returns a feature filter that selects default features from all packages.
pub fn default_filter() -> (r: FeatureFilter)
    ensures
        r == FeatureFilter::Default,
{
    FeatureFilter::Default
}

/// Returns a feature filter that selects everything from the base filter, plus these additional
/// feature names.
pub fn feature_filter(base: FeatureFilter, features: Vec<String>) -> (r: FeatureFilter)
    ensures
        r == (FeatureFilter::Features { base: Box::new(base), names: features }),
{
    FeatureFilter::Features { base: Box::new(base), names: features }
}

impl FeatureFilter {
    /// Returns true if the filter takes the feature at an index of the
    /// package.
    pub fn accepts(&self, package: &PackageMetadata, idx: usize) -> (r: bool)
        requires
            package.rep_ok(),
            idx < package@.features.len(),
        ensures
            r == filter_accepts(*self, package@.features[idx as int]),
        decreases self,
    {
        match self {
            FeatureFilter::All => true,
            FeatureFilter::NoFeatures => false,
            FeatureFilter::Default => crate::text::str_eq(package.feature_name(idx), "default")
                && package.feature_deps(idx).is_some(),
            FeatureFilter::Features { base, names } => base.accepts(package, idx) || contains_string(
                names,
                package.feature_name(idx),
            ),
        }
    }
}

/// The nodes that a query starts from for the first `nf` features of the
/// package `p`: the base of the package, and the features that the filter
/// takes.
pub open spec fn package_seeds(
    packages: Seq<PackageMetadataView>,
    p: int,
    filter: FeatureFilter,
    nf: int,
) -> Seq<usize>
    decreases nf,
{
    if nf <= 0 {
        seq![base_node(packages, p) as usize]
    } else {
        let before = package_seeds(packages, p, filter, nf - 1);
        if filter_accepts(filter, packages[p].features[nf - 1]) {
            before.push(feature_node(packages, p, nf - 1) as usize)
        } else {
            before
        }
    }
}

/// The nodes that a query starts from for the first `n` of the given
/// packages.
pub open spec fn query_seeds(
    packages: Seq<PackageMetadataView>,
    from: Seq<usize>,
    filter: FeatureFilter,
    n: int,
) -> Seq<usize>
    decreases n,
{
    if n <= 0 {
        Seq::empty()
    } else {
        query_seeds(packages, from, filter, n - 1) + package_seeds(
            packages,
            from[n - 1] as int,
            filter,
            packages[from[n - 1] as int].features.len() as int,
        )
    }
}

/// A query over a feature graph: the nodes to start from.
pub struct FeatureQuery<'g> {
    graph: &'g FeatureGraph<'g>,
    seeds: Vec<usize>,
}

impl<'g> FeatureQuery<'g> {
    /// The graph that is asked.
    pub closed spec fn graph(&self) -> &FeatureGraph<'g> {
        self.graph
    }

    /// The nodes to start from.
    pub closed spec fn seeds(&self) -> Seq<usize> {
        self.seeds@
    }

    /// Whether the query is on a well-formed graph and starts from nodes of
    /// it.
    pub open spec fn wf(&self) -> bool {
        &&& self.graph().wf()
        &&& forall|k: int| 0 <= k < self.seeds().len() ==> (#[trigger] self.seeds()[k]) < self.graph()@.nodes.len()
    }

    /// The query that starts from the given nodes.
    pub fn new(graph: &'g FeatureGraph<'g>, seeds: Vec<usize>) -> (r: Self)
        requires
            graph.wf(),
            forall|k: int| 0 <= k < seeds.len() ==> (#[trigger] seeds[k]) < graph@.nodes.len(),
        ensures
            r.wf(),
            r.graph() == graph,
            r.seeds() == seeds@,
    {
        FeatureQuery { graph, seeds }
    }

    /// The graph that is asked.
    pub fn feature_graph(&self) -> (r: &'g FeatureGraph<'g>)
        ensures
            r == self.graph(),
    {
        self.graph
    }

    /// The nodes that the query starts from.
    pub fn starts_from(&self) -> (r: &Vec<usize>)
        ensures
            r@ == self.seeds(),
    {
        &self.seeds
    }

    /// Resolves this query into the set of the features that it reaches
    /// along any edge.
    pub fn resolve(self) -> (r: FeatureSet<'g>)
        requires
            self.wf(),
        ensures
            r.wf(),
            r.graph() == self.graph(),
            forall|v: int|
                0 <= v < r.marks().len() ==> (r.marks()[v] <==> reached(
                    self.graph()@.edges,
                    Seq::new(self.graph()@.labels.len(), |i: int| true),
                    DependencyDirection::Forward,
                    self.seeds(),
                    v,
                )),
    {
        let n = self.graph.label_count();
        let mut enabled: Vec<bool> = Vec::new();
        let mut w: usize = 0;
        while w < n
            invariant
                w <= n,
                enabled.len() == w,
                forall|k: int| 0 <= k < w ==> enabled[k],
            decreases n - w,
        {
            enabled.push(true);
            w = w + 1;
        }
        assert(enabled@ =~= Seq::new(self.graph()@.labels.len(), |i: int| true));
        assert forall|k: int| 0 <= k < self.seeds.len() implies (#[trigger] self.seeds[k])
            < self.graph@.nodes.len() by {
            assert(self.seeds()[k] < self.graph()@.nodes.len());
        }
        let marks = self.graph.reach(&self.seeds, &enabled, DependencyDirection::Forward);
        FeatureSet { graph: self.graph, marks }
    }
}

impl<'g> FeatureGraph<'g> {
    /// Creates a new query over the packages that a package query
    /// starts from, with the features of each that the filter takes.
    #[verifier::loop_isolation(false)]
    pub fn query_packages<'a>(&'a self, packages: &PackageQuery<'_>, filter: &FeatureFilter) -> (r:
        FeatureQuery<'a>) where 'g: 'a
        requires
            self.wf(),
            packages.wf(),
            packages.graph() == self.package_graph(),
        ensures
            r.wf(),
            r.graph() == self,
            r.seeds() == query_seeds(
                self.package_graph()@.packages,
                packages.seeds(),
                *filter,
                packages.seeds().len() as int,
            ),
    {
        let ghost pkgs = self.package_graph()@.packages;
        let from = packages.starts_from();
        let graph = self.packages();
        let mut seeds: Vec<usize> = Vec::new();
        let mut k: usize = 0;
        while k < from.len()
            invariant
                k <= from.len(),
                seeds@ == query_seeds(pkgs, from@, *filter, k as int),
                forall|j: int| 0 <= j < seeds.len() ==> (#[trigger] seeds[j]) < self@.nodes.len(),
            decreases from.len() - k,
        {
            let p = from[k];
            assert(packages.seeds()[k as int] < pkgs.len());
            let package = graph.package_at(p);
            let nf = package.feature_count();
            let mut own: Vec<usize> = Vec::new();
            own.push(self.base_ix(p));
            assert(own@ =~= package_seeds(pkgs, p as int, *filter, 0));
            let mut f: usize = 0;
            while f < nf
                invariant
                    f <= nf,
                    own@ == package_seeds(pkgs, p as int, *filter, f as int),
                    forall|j: int| 0 <= j < own.len() ==> (#[trigger] own[j]) < self@.nodes.len(),
                decreases nf - f,
            {
                if filter.accepts(package, f) {
                    own.push(self.feature_ix(p, f));
                }
                f = f + 1;
            }
            let ghost before = seeds@;
            let mut j: usize = 0;
            while j < own.len()
                invariant
                    j <= own.len(),
                    seeds@ == before + own@.subrange(0, j as int),
                    forall|i: int| 0 <= i < seeds.len() ==> (#[trigger] seeds[i]) < self@.nodes.len(),
                decreases own.len() - j,
            {
                seeds.push(own[j]);
                assert(seeds@ =~= before + own@.subrange(0, j + 1));
                j = j + 1;
            }
            assert(own@.subrange(0, own@.len() as int) =~= own@);
            k = k + 1;
        }
        FeatureQuery::new(self, seeds)
    }

    /// Creates a new query over the entire workspace, with the features of
    /// each member that the filter takes.
    pub fn query_workspace<'a>(&'a self, filter: &FeatureFilter) -> (r: FeatureQuery<'a>) where
        'g: 'a,

        requires
            self.wf(),
        ensures
            r.wf(),
            r.graph() == self,
            exists|members: Seq<usize>|
                {
                    &&& members.len() == self.package_graph()@.workspace.members.len()
                    &&& forall|k: int|
                        0 <= k < members.len() ==> (#[trigger] members[k]) < self.package_graph()@.packages.len()
                            && self.package_graph()@.packages[members[k] as int].package.id@
                            == self.package_graph()@.workspace.members[k].1
                    &&& r.seeds() == query_seeds(
                        self.package_graph()@.packages,
                        members,
                        *filter,
                        members.len() as int,
                    )
                },
    {
        let packages = self.packages().query_workspace();
        let r = self.query_packages(&packages, filter);
        proof {
            let members = packages.seeds();
            assert(members.len() == self.package_graph()@.workspace.members.len());
            assert(r.seeds() == query_seeds(
                self.package_graph()@.packages,
                members,
                *filter,
                members.len() as int,
            ));
        }
        r
    }

    /// The index of the node with the given identifier. Fails where the
    /// package is not known, or has no feature of the name.
    pub fn node_ix(&self, feature_id: &FeatureId<'_>) -> (r: Result<usize, Error>)
        requires
            self.wf(),
        ensures
            match r {
                Ok(ix) => is_node_of(self.package_graph()@, *feature_id, ix as int) && ix
                    < self@.nodes.len(),
                Err(e) => e@ == unknown_feature(*feature_id) && has_no_node(
                    self.package_graph()@,
                    *feature_id,
                ),
            },
    {
        let graph = self.packages();
        let error = Error::UnknownFeatureId(
            feature_id.package_id.duplicate(),
            match feature_id.feature {
                Some(name) => Some(name.to_owned()),
                None => None,
            },
        );
        match graph.package_ix(feature_id.package_id) {
            None => Err(error),
            Some(p) => {
                let ghost pkgs = self.package_graph()@.packages;
                assert(pkgs[p as int].package.id@ == feature_id.package_id@);
                match feature_id.feature {
                    None => Ok(self.base_ix(p)),
                    Some(name) => match find_feature(graph.package_at(p), name) {
                        Some(f) => Ok(self.feature_ix(p, f)),
                        None => {
                            assert forall|q: int|
                                0 <= q < pkgs.len() && (#[trigger] pkgs[q]).package.id@
                                    == feature_id.package_id@ implies feature_index(
                                pkgs[q].features,
                                name@,
                            ) is None by {
                                assert(q == p);
                            }
                            Err(error)
                        },
                    },
                }
            },
        }
    }
}

/// A set of features of the packages of a graph, as a query resolves to
/// it.
pub struct FeatureSet<'g> {
    graph: &'g FeatureGraph<'g>,
    // By node index: whether the node is in the set.
    marks: Vec<bool>,
}

impl<'g> FeatureSet<'g> {
    /// The graph that the features are of.
    pub closed spec fn graph(&self) -> &FeatureGraph<'g> {
        self.graph
    }

    /// By node index: whether the node is in the set.
    pub closed spec fn marks(&self) -> Seq<bool> {
        self.marks@
    }

    /// Whether the set is one of nodes of a well-formed graph.
    pub open spec fn wf(&self) -> bool {
        self.graph().wf() && self.marks().len() == self.graph()@.nodes.len()
    }

    /// The set with the given marks.
    pub fn new(graph: &'g FeatureGraph<'g>, marks: Vec<bool>) -> (r: Self)
        requires
            graph.wf(),
            marks.len() == graph@.nodes.len(),
        ensures
            r.wf(),
            r.graph() == graph,
            r.marks() == marks@,
    {
        FeatureSet { graph, marks }
    }

    /// The graph that the features are of.
    pub fn feature_graph(&self) -> (r: &'g FeatureGraph<'g>)
        ensures
            r == self.graph(),
    {
        self.graph
    }

    /// Returns true if this set holds the node at the index.
    pub fn contains_ix(&self, ix: usize) -> (r: bool)
        ensures
            r == flag_set(self.marks(), ix as int),
    {
        ix < self.marks.len() && self.marks[ix]
    }

    /// Returns the number of (package, feature) pairs in this set.
    pub fn len(&self) -> (r: usize)
        ensures
            r == crate::reach::count_set(self.marks()),
    {
        let mut count: usize = 0;
        let mut i: usize = 0;
        assert(self.marks@.subrange(0, 0) =~= Seq::<bool>::empty());
        while i < self.marks.len()
            invariant
                i <= self.marks.len(),
                count <= i,
                count == crate::reach::count_set(self.marks@.subrange(0, i as int)),
            decreases self.marks.len() - i,
        {
            assert(self.marks@.subrange(0, i + 1).drop_last() =~= self.marks@.subrange(0, i as int));
            if self.marks[i] {
                count = count + 1;
            }
            i = i + 1;
        }
        assert(self.marks@.subrange(0, self.marks@.len() as int) =~= self.marks@);
        count
    }

    /// Returns true if this set holds the (package, feature) pair with the
    /// identifier. Fails where the graph has no such pair.
    pub fn contains(&self, feature_id: &FeatureId<'_>) -> (r: Result<bool, Error>)
        requires
            self.wf(),
        ensures
            match r {
                Ok(answer) => exists|ix: int|
                    0 <= ix < self.marks().len() && #[trigger] is_node_of(
                        self.graph().package_graph()@,
                        *feature_id,
                        ix,
                    ) && answer == self.marks()[ix],
                Err(e) => e@ == unknown_feature(*feature_id) && has_no_node(
                    self.graph().package_graph()@,
                    *feature_id,
                ),
            },
    {
        match self.graph.node_ix(feature_id) {
            Ok(ix) => {
                assert(is_node_of(self.graph().package_graph()@, *feature_id, ix as int));
                assert(self.marks()[ix as int] == self.marks[ix as int]);
                Ok(self.marks[ix])
            },
            Err(e) => Err(e),
        }
    }

    /// Returns the set of the pairs that are in this set or in the other.
    pub fn union(&self, other: &FeatureSet<'g>) -> (r: FeatureSet<'g>)
        requires
            self.wf(),
            other.wf(),
            other.graph() == self.graph(),
        ensures
            r.wf(),
            r.graph() == self.graph(),
            forall|v: int|
                0 <= v < r.marks().len() ==> r.marks()[v] == (self.marks()[v] || other.marks()[v]),
    {
        let mut marks: Vec<bool> = Vec::new();
        let mut i: usize = 0;
        while i < self.marks.len()
            invariant
                i <= self.marks.len(),
                self.marks.len() == other.marks.len(),
                marks.len() == i,
                forall|v: int| 0 <= v < i ==> marks[v] == (self.marks[v] || other.marks[v]),
            decreases self.marks.len() - i,
        {
            marks.push(self.marks[i] || other.marks[i]);
            i = i + 1;
        }
        FeatureSet { graph: self.graph, marks }
    }

    /// A copy of this set.
    pub fn duplicate(&self) -> (r: FeatureSet<'g>)
        requires
            self.wf(),
        ensures
            r.wf(),
            r.graph() == self.graph(),
            r.marks() == self.marks(),
    {
        let mut marks: Vec<bool> = Vec::new();
        let mut i: usize = 0;
        while i < self.marks.len()
            invariant
                i <= self.marks.len(),
                marks.len() == i,
                forall|v: int| 0 <= v < i ==> marks[v] == self.marks[v],
            decreases self.marks.len() - i,
        {
            marks.push(self.marks[i]);
            i = i + 1;
        }
        assert(marks@ =~= self.marks@);
        FeatureSet { graph: self.graph, marks }
    }
}

impl PackageGraph {
    /// Returns the feature graph of this package graph. Fails where the
    /// feature graph would have more nodes or edges than can be counted.
    pub fn feature_graph<'g>(&'g self) -> (r: Result<FeatureGraph<'g>, Error>)
        requires
            self.wf(),
        ensures
            match r {
                Ok(fg) => fg.wf() && fg.package_graph() == self
                    && crate::graph::feature::feature_graph::feature_graph_fits(self@),
                Err(e) => !crate::graph::feature::feature_graph::feature_graph_fits(self@) && e@
                    == ErrorView::PackageGraphInternalError,
            },
    {
        FeatureGraph::new(self)
    }
}

/// A package with the features of it that a set holds.
pub struct FeatureList<'g> {
    package: &'g PackageMetadata,
    has_base: bool,
    features: Vec<&'g str>,
}

/// The model of a [`FeatureList`]: the index of the package, whether the
/// set holds the package itself, and the names of the features.
pub struct FeatureListView {
    pub package_ix: usize,
    pub has_base: bool,
    pub features: Seq<Seq<char>>,
}

impl<'g> View for FeatureList<'g> {
    type V = FeatureListView;

    closed spec fn view(&self) -> FeatureListView {
        FeatureListView {
            package_ix: self.package@.package_ix,
            has_base: self.has_base,
            features: crate::graph::graph_impl::strs_view(self.features@),
        }
    }
}

impl<'g> FeatureList<'g> {
    /// The package as it is in its graph.
    pub closed spec fn spec_package(&self) -> PackageMetadataView {
        self.package@
    }

    /// Returns the package.
    pub fn package(&self) -> (r: &'g PackageMetadata)
        ensures
            r@ == self.spec_package(),
            r@.package_ix == self@.package_ix,
    {
        self.package
    }

    /// Returns true if the set holds the package itself, its "base".
    pub fn has_base(&self) -> (r: bool)
        ensures
            r == self@.has_base,
    {
        self.has_base
    }

    /// Returns the names of the features of the package that the set
    /// holds, in the order of the features of the package.
    pub fn features(&self) -> (r: &Vec<&'g str>)
        ensures
            crate::graph::graph_impl::strs_view(r@) == self@.features,
    {
        &self.features
    }
}

/// The names of the features among the first `nf` of the package `p`
/// whose nodes are marked.
pub open spec fn marked_features(
    packages: Seq<PackageMetadataView>,
    marks: Seq<bool>,
    p: int,
    nf: int,
) -> Seq<Seq<char>>
    decreases nf,
{
    if nf <= 0 {
        Seq::empty()
    } else {
        let before = marked_features(packages, marks, p, nf - 1);
        if flag_set(marks, feature_node(packages, p, nf - 1)) {
            before.push(packages[p].features[nf - 1].0)
        } else {
            before
        }
    }
}

/// Whether a node of the package `p` is marked: its base, or one of its
/// first `nf` features.
pub open spec fn any_marked(packages: Seq<PackageMetadataView>, marks: Seq<bool>, p: int, nf: int) -> bool
    decreases nf,
{
    if nf <= 0 {
        flag_set(marks, base_node(packages, p))
    } else {
        any_marked(packages, marks, p, nf - 1) || flag_set(marks, feature_node(packages, p, nf - 1))
    }
}

/// What a set lists for the package `p`, if it holds a node of it.
pub open spec fn listed_for(packages: Seq<PackageMetadataView>, marks: Seq<bool>, p: int) -> Option<
    FeatureListView,
> {
    let nf = packages[p].features.len() as int;
    if any_marked(packages, marks, p, nf) {
        Some(
            FeatureListView {
                package_ix: p as usize,
                has_base: flag_set(marks, base_node(packages, p)),
                features: marked_features(packages, marks, p, nf),
            },
        )
    } else {
        None
    }
}

/// What a set lists for the first `n` packages of an order.
pub open spec fn listed_in(
    packages: Seq<PackageMetadataView>,
    marks: Seq<bool>,
    order: Seq<usize>,
    n: int,
) -> Seq<FeatureListView>
    decreases n,
{
    if n <= 0 {
        Seq::empty()
    } else {
        let before = listed_in(packages, marks, order, n - 1);
        match listed_for(packages, marks, order[n - 1] as int) {
            Some(list) => before.push(list),
            None => before,
        }
    }
}

/// The models of lists of features.
pub open spec fn feature_lists_view(v: Seq<FeatureList>) -> Seq<FeatureListView> {
    Seq::new(v.len(), |i: int| v[i]@)
}

impl<'g> FeatureSet<'g> {
    /// The order in which the packages are listed: forward, each package
    /// before those that it depends on (as far as the dependency is not for
    /// tests alone); reverse, after them.
    pub open spec fn package_order(&self, direction: DependencyDirection) -> Seq<usize> {
        if direction == DependencyDirection::Forward {
            self.graph().package_graph()@.topo
        } else {
            self.graph().package_graph()@.topo.reverse()
        }
    }

    /// Returns the packages of which this set holds a node, each with the
    /// features of it that the set holds, in the given direction.
    #[verifier::loop_isolation(false)]
    pub fn packages_with_features(&self, direction: DependencyDirection) -> (r: Vec<FeatureList<'g>>)
        requires
            self.wf(),
        ensures
            feature_lists_view(r@) == listed_in(
                self.graph().package_graph()@.packages,
                self.marks(),
                self.package_order(direction),
                self.package_order(direction).len() as int,
            ),
            forall|i: int|
                0 <= i < r.len() ==> (#[trigger] r[i]).spec_package()
                    == self.graph().package_graph()@.packages[r[i]@.package_ix as int],
    {
        let graph = self.graph.packages();
        let ghost pg = graph@;
        let ghost pkgs = pg.packages;
        let topo = graph.topo();
        let order = match direction {
            DependencyDirection::Forward => copy_of(topo),
            DependencyDirection::Reverse => reverse_of(topo),
        };
        assert(crate::petgraph_support::is_topological_order(pg.topo, pkgs.len(), pg.build_edges()));
        let mut out: Vec<FeatureList<'g>> = Vec::new();
        assert(feature_lists_view(out@) =~= listed_in(pkgs, self.marks@, order@, 0));
        let mut i: usize = 0;
        while i < order.len()
            invariant
                i <= order.len(),
                feature_lists_view(out@) == listed_in(pkgs, self.marks@, order@, i as int),
                forall|k: int|
                    0 <= k < out.len() ==> (#[trigger] out[k]).spec_package()
                        == pkgs[out[k]@.package_ix as int],
            decreases order.len() - i,
        {
            let p = order[i];
            assert(p < pkgs.len()) by {
                if direction == DependencyDirection::Forward {
                    assert(order[i as int] == pg.topo[i as int]);
                } else {
                    assert(order[i as int] == pg.topo[pg.topo.len() - 1 - i]);
                }
            }
            let package = graph.package_at(p);
            let nf = package.feature_count();
            let has_base = self.contains_ix(self.graph.base_ix(p));
            let mut any = has_base;
            let mut features: Vec<&'g str> = Vec::new();
            assert(crate::graph::graph_impl::strs_view(features@) =~= marked_features(
                pkgs,
                self.marks@,
                p as int,
                0,
            ));
            let mut f: usize = 0;
            while f < nf
                invariant
                    f <= nf,
                    any == any_marked(pkgs, self.marks@, p as int, f as int),
                    crate::graph::graph_impl::strs_view(features@) == marked_features(
                        pkgs,
                        self.marks@,
                        p as int,
                        f as int,
                    ),
                decreases nf - f,
            {
                if self.contains_ix(self.graph.feature_ix(p, f)) {
                    any = true;
                    let ghost before = crate::graph::graph_impl::strs_view(features@);
                    features.push(package.feature_name(f));
                    assert(crate::graph::graph_impl::strs_view(features@) =~= before.push(
                        pkgs[p as int].features[f as int].0,
                    ));
                }
                f = f + 1;
            }
            if any {
                let ghost before = feature_lists_view(out@);
                let list = FeatureList { package, has_base, features };
                assert(pkgs[p as int].package_ix == p);
                out.push(list);
                assert(feature_lists_view(out@) =~= before.push(list@));
            }
            i = i + 1;
        }
        out
    }
}

/// The optional dependencies among the first `n` features: each with its
/// index.
pub open spec fn optional_among(features: Seq<(Seq<char>, Option<Seq<Seq<char>>>)>, n: int) -> Seq<
    (usize, Seq<char>),
>
    decreases n,
{
    if n <= 0 {
        Seq::empty()
    } else if features[n - 1].1 is None {
        optional_among(features, n - 1).push(((n - 1) as usize, features[n - 1].0))
    } else {
        optional_among(features, n - 1)
    }
}

/// The named features among the first `n` features: each with its index
/// and with what it enables.
pub open spec fn named_full_among(features: Seq<(Seq<char>, Option<Seq<Seq<char>>>)>, n: int) -> Seq<
    (usize, Seq<char>, Seq<Seq<char>>),
>
    decreases n,
{
    if n <= 0 {
        Seq::empty()
    } else {
        match features[n - 1].1 {
            Some(deps) => named_full_among(features, n - 1).push(
                ((n - 1) as usize, features[n - 1].0, deps),
            ),
            None => named_full_among(features, n - 1),
        }
    }
}

/// The models of named features with their indices.
pub open spec fn named_full_view(v: Seq<(usize, &str, &Vec<String>)>) -> Seq<
    (usize, Seq<char>, Seq<Seq<char>>),
> {
    Seq::new(v.len(), |i: int| (v[i].0, v[i].1@, crate::graph::dependency::strings_view(v[i].2@)))
}

/// The models of optional dependencies with their indices.
pub open spec fn optional_view(v: Seq<(usize, &str)>) -> Seq<(usize, Seq<char>)> {
    Seq::new(v.len(), |i: int| (v[i].0, v[i].1@))
}

impl PackageMetadata {
    /// Returns the `FeatureId` corresponding to the default feature: that
    /// of the feature `default`, where the package has one, and else that
    /// of the package itself.
    pub fn default_feature_id(&self) -> (r: FeatureId<'_>)
        ensures
            r.package_id == self@.package.id,
            self@.has_default_feature ==> (r.feature matches Some(name) && name@ == "default"@),
            !self@.has_default_feature ==> r.feature is None,
    {
        if self.has_default_feature() {
            FeatureId::new(self.id(), "default")
        } else {
            FeatureId::base(self.id())
        }
    }

    /// The nodes of this package in the feature graph: its base, and one
    /// for each of its features.
    pub fn all_feature_nodes(&self) -> (r: Vec<FeatureNode>)
        requires
            self.rep_ok(),
        ensures
            r.len() == self@.features.len() + 1,
            r[0] == (FeatureNode { package_ix: self@.package_ix, feature_idx: None }),
            forall|f: int|
                0 <= f < self@.features.len() ==> (#[trigger] r[f + 1]) == (FeatureNode {
                    package_ix: self@.package_ix,
                    feature_idx: Some(f as usize),
                }),
    {
        let nf = self.feature_count();
        let ix = self.package_ix();
        let mut out: Vec<FeatureNode> = Vec::new();
        out.push(FeatureNode { package_ix: ix, feature_idx: None });
        let mut f: usize = 0;
        while f < nf
            invariant
                f <= nf,
                out.len() == f + 1,
                out[0] == (FeatureNode { package_ix: ix, feature_idx: None }),
                forall|h: int|
                    0 <= h < f ==> (#[trigger] out[h + 1]) == (FeatureNode {
                        package_ix: ix,
                        feature_idx: Some(h as usize),
                    }),
            decreases nf - f,
        {
            out.push(FeatureNode { package_ix: ix, feature_idx: Some(f) });
            f = f + 1;
        }
        out
    }

    /// The named features of this package, each with its index and with
    /// what it enables.
    #[verifier::loop_isolation(false)]
    pub fn named_features_full(&self) -> (r: Vec<(usize, &str, &Vec<String>)>)
        requires
            self.rep_ok(),
        ensures
            named_full_view(r@) == named_full_among(self@.features, self@.features.len() as int),
    {
        let nf = self.feature_count();
        let mut out: Vec<(usize, &str, &Vec<String>)> = Vec::new();
        assert(named_full_view(out@) =~= named_full_among(self@.features, 0));
        let mut f: usize = 0;
        while f < nf
            invariant
                f <= nf,
                named_full_view(out@) == named_full_among(self@.features, f as int),
            decreases nf - f,
        {
            match self.feature_deps(f) {
                Some(deps) => {
                    let ghost before = named_full_view(out@);
                    out.push((f, self.feature_name(f), deps));
                    assert(named_full_view(out@) =~= before.push(
                        (f, self@.features[f as int].0, crate::graph::dependency::strings_view(deps@)),
                    ));
                },
                None => {},
            }
            f = f + 1;
        }
        out
    }

    /// The optional dependencies of this package, each with its index
    /// among the features.
    #[verifier::loop_isolation(false)]
    pub fn optional_deps_full(&self) -> (r: Vec<(usize, &str)>)
        requires
            self.rep_ok(),
        ensures
            optional_view(r@) == optional_among(self@.features, self@.features.len() as int),
    {
        let nf = self.feature_count();
        let mut out: Vec<(usize, &str)> = Vec::new();
        assert(optional_view(out@) =~= optional_among(self@.features, 0));
        let mut f: usize = 0;
        while f < nf
            invariant
                f <= nf,
                optional_view(out@) == optional_among(self@.features, f as int),
            decreases nf - f,
        {
            if self.feature_deps(f).is_none() {
                let ghost before = optional_view(out@);
                out.push((f, self.feature_name(f)));
                assert(optional_view(out@) =~= before.push((f, self@.features[f as int].0)));
            }
            f = f + 1;
        }
        out
    }
}

} // verus!
