//! Which features Cargo turns on: the resolution of a feature query as
//! Cargo's feature resolver does it.

use crate::errors::{Error, ErrorView};
use crate::graph::dependency::{opt_platform_view, TargetPredicate, TargetPredicateView};
use crate::graph::feature::construct::{base_node, feature_node, FeatureEdge, FeatureEdgeView};
use crate::graph::feature::FeatureGraph;
use crate::petgraph_support::flag_set;
use crate::reach::{lemma_reached_self, lemma_reached_step};
use crate::graph::feature::feature_graph::FeatureGraphView;
use crate::graph::feature::query::{FeatureQuery, FeatureSet};
use crate::metadata::DependencyKind;
use crate::petgraph_support::DependencyDirection;
use crate::reach::{reached, reached_from};
use crate::target_spec::evaluator::{EvalError, EvalErrorView};
use crate::target_spec::platform::{Platform, PlatformView};
use vstd::prelude::*;

verus! {

/// The version of Cargo's feature resolver to use.
#[derive(Clone, Copy, Debug, PartialEq, Eq, Structural)]
#[non_exhaustive]
pub enum CargoResolverVersion {
    /// The "classic" feature resolver: the features that the target and
    /// the host of a build need are unified.
    V1,
}

/// Options for queries which simulate what Cargo does.
#[derive(Clone, Debug, PartialEq, Eq)]
pub struct CargoOptions {
    version: CargoResolverVersion,
    include_dev: bool,
    host_platform: Option<Platform>,
    target_platform: Option<Platform>,
}

/// The model of [`CargoOptions`].
pub struct CargoOptionsView {
    pub version: CargoResolverVersion,
    pub include_dev: bool,
    pub host_platform: Option<PlatformView>,
    pub target_platform: Option<PlatformView>,
}

impl View for CargoOptions {
    type V = CargoOptionsView;

    closed spec fn view(&self) -> CargoOptionsView {
        CargoOptionsView {
            version: self.version,
            include_dev: self.include_dev,
            host_platform: opt_platform_view(self.host_platform),
            target_platform: opt_platform_view(self.target_platform),
        }
    }
}

impl CargoOptions {
    /// Creates a new `CargoOptions` with this resolver version and default settings: no
    /// development dependencies, and any platform for the target and for
    /// the host.
    pub fn new() -> (r: Self)
        ensures
            r@.version == CargoResolverVersion::V1,
            !r@.include_dev,
            r@.host_platform is None,
            r@.target_platform is None,
    {
        Self {
            version: CargoResolverVersion::V1,
            include_dev: false,
            host_platform: None,
            target_platform: None,
        }
    }

    /// Sets the Cargo feature resolver version.
    pub fn with_version(self, version: CargoResolverVersion) -> (r: Self)
        ensures
            r@ == (CargoOptionsView { version, ..self@ }),
    {
        Self { version, ..self }
    }

    /// If set to true, causes dev-dependencies of the initial set to be followed.
    pub fn with_dev_deps(self, include_dev: bool) -> (r: Self)
        ensures
            r@ == (CargoOptionsView { include_dev, ..self@ }),
    {
        Self { include_dev, ..self }
    }

    /// Sets the target platform to the provided one, or to evaluate against any platform if
    /// `None`.
    pub fn with_target_platform(self, target_platform: Option<Platform>) -> (r: Self)
        ensures
            r@ == (CargoOptionsView {
                target_platform: opt_platform_view(target_platform),
                ..self@
            }),
    {
        Self { target_platform, ..self }
    }

    /// Sets the host platform to the provided one, or to evaluate against any platform if
    /// `None`.
    pub fn with_host_platform(self, host_platform: Option<Platform>) -> (r: Self)
        ensures
            r@ == (CargoOptionsView { host_platform: opt_platform_view(host_platform), ..self@ }),
    {
        Self { host_platform, ..self }
    }
}

/// Whether a predicate holds on a platform: where no platform is given,
/// whether it holds on some platform.
pub open spec fn holds_on(predicate: TargetPredicateView, platform: Option<PlatformView>) -> Result<
    bool,
    ErrorView,
> {
    match platform {
        None => Ok(!predicate.is_empty()),
        Some(p) => match predicate.eval(p) {
            Ok(b) => Ok(b),
            Err(e) => Err(ErrorView::TargetEvalError { platform: p.triple, err: e }),
        },
    }
}

/// Whether the resolver follows an edge. The edges inside a package are
/// followed. An edge to another package is followed where its dependency
/// is normal, where it is one of a build script, and, if the options ask
/// for that, where it is one of tests; and only where it holds on the
/// target platform or on the host platform.
pub open spec fn edge_enabled(label: FeatureEdgeView, opts: CargoOptionsView) -> Result<
    bool,
    ErrorView,
> {
    match label {
        FeatureEdgeView::FeatureToBase => Ok(true),
        FeatureEdgeView::FeatureDependency => Ok(true),
        FeatureEdgeView::CrossPackage { kind, predicate, optional } => {
            if kind == DependencyKind::Development && !opts.include_dev {
                Ok(false)
            } else {
                match holds_on(predicate, opts.target_platform) {
                    Err(e) => Err(e),
                    Ok(true) => Ok(true),
                    Ok(false) => holds_on(predicate, opts.host_platform),
                }
            }
        },
    }
}

/// For the first `n` labels, whether the resolver follows their edges.
/// The first label that cannot be evaluated ends it.
pub open spec fn enabled_labels(labels: Seq<FeatureEdgeView>, opts: CargoOptionsView, n: int) -> Result<
    Seq<bool>,
    ErrorView,
>
    decreases n,
{
    if n <= 0 {
        Ok(Seq::empty())
    } else {
        match enabled_labels(labels, opts, n - 1) {
            Err(e) => Err(e),
            Ok(flags) => match edge_enabled(labels[n - 1], opts) {
                Err(e) => Err(e),
                Ok(b) => Ok(flags.push(b)),
            },
        }
    }
}

/// Whether the marks are those of the features that the resolver turns
/// on: the nodes that walks along the edges that it follows reach from the
/// seeds.
pub open spec fn resolved(
    g: FeatureGraphView,
    seeds: Seq<usize>,
    opts: CargoOptionsView,
    marks: Seq<bool>,
) -> bool {
    &&& enabled_labels(g.labels, opts, g.labels.len() as int) is Ok
    &&& marks.len() == g.nodes.len()
    &&& forall|v: int|
        0 <= v < marks.len() ==> (marks[v] <==> reached(
            g.edges,
            enabled_labels(g.labels, opts, g.labels.len() as int)->Ok_0,
            DependencyDirection::Forward,
            seeds,
            v,
        ))
}

fn predicate_holds(predicate: &TargetPredicate, platform: &Option<Platform>) -> (r: Result<
    bool,
    Error,
>)
    ensures
        match r {
            Ok(b) => holds_on(predicate@, opt_platform_view(*platform)) == Ok::<bool, ErrorView>(b),
            Err(e) => holds_on(predicate@, opt_platform_view(*platform)) == Err::<bool, ErrorView>(
                e@,
            ),
        },
{
    match platform {
        None => Ok(!predicate.is_empty()),
        Some(p) => match predicate.eval(p) {
            Ok(b) => Ok(b),
            Err(e) => Err(Error::TargetEvalError { platform: p.triple().to_owned(), err: e }),
        },
    }
}

/// A set of packages and features, as would be built by Cargo.
pub struct CargoSet<'g> {
    target_features: FeatureSet<'g>,
    host_features: FeatureSet<'g>,
}

impl<'g> CargoSet<'g> {
    /// The features that are built for the target platform.
    pub closed spec fn target(&self) -> FeatureSet<'g> {
        self.target_features
    }

    /// The features that are built for the host platform.
    pub closed spec fn host(&self) -> FeatureSet<'g> {
        self.host_features
    }

    /// Whether the two sets are sets of features of one well-formed graph.
    pub open spec fn wf(&self) -> bool {
        self.target().wf() && self.host().wf() && self.target().graph() == self.host().graph()
    }

    /// Returns the feature set enabled on the target platform.
    pub fn target_features(&self) -> (r: &FeatureSet<'g>)
        ensures
            *r == self.target(),
    {
        &self.target_features
    }

    /// Returns the feature set enabled on the host platform.
    pub fn host_features(&self) -> (r: &FeatureSet<'g>)
        ensures
            *r == self.host(),
    {
        &self.host_features
    }
}

/// Whether the resolver follows the edge of a label.
pub fn is_enabled(label: &FeatureEdge, opts: &CargoOptions) -> (r: Result<bool, Error>)
    ensures
        match r {
            Ok(b) => edge_enabled(label@, opts@) == Ok::<bool, ErrorView>(b),
            Err(e) => edge_enabled(label@, opts@) == Err::<bool, ErrorView>(e@),
        },
{
    match label {
        FeatureEdge::FeatureToBase => Ok(true),
        FeatureEdge::FeatureDependency => Ok(true),
        FeatureEdge::CrossPackage { kind, predicate, optional } => {
            let is_dev = match kind {
                DependencyKind::Development => true,
                _ => false,
            };
            if is_dev && !opts.include_dev {
                Ok(false)
            } else {
                match predicate_holds(predicate, &opts.target_platform) {
                    Err(e) => Err(e),
                    Ok(true) => Ok(true),
                    Ok(false) => predicate_holds(predicate, &opts.host_platform),
                }
            }
        },
    }
}

impl<'g> FeatureQuery<'g> {
    /// Resolves this query as Cargo would: to the features that the build
    /// turns on for the target platform and for the host platform. The
    /// first version of the resolver unifies the two.
    ///
    /// Fails where a target specification of the graph cannot be evaluated
    /// on a platform of the options.
    #[verifier::loop_isolation(false)]
    pub fn resolve_cargo(self, opts: &CargoOptions) -> (r: Result<CargoSet<'g>, Error>)
        requires
            self.wf(),
        ensures
            match r {
                Ok(set) => {
                    &&& set.wf()
                    &&& set.target().graph() == self.graph()
                    &&& resolved(self.graph()@, self.seeds(), opts@, set.target().marks())
                    &&& set.host().marks() == set.target().marks()
                },
                Err(e) => enabled_labels(
                    self.graph()@.labels,
                    opts@,
                    self.graph()@.labels.len() as int,
                ) == Err::<Seq<bool>, ErrorView>(e@),
            },
    {
        let graph = self.feature_graph();
        let ghost labels = graph@.labels;
        let n = graph.label_count();
        let mut enabled: Vec<bool> = Vec::new();
        let mut w: usize = 0;
        while w < n
            invariant
                w <= n,
                enabled_labels(labels, opts@, w as int) == Ok::<Seq<bool>, ErrorView>(enabled@),
            decreases n - w,
        {
            match is_enabled(graph.label(w), opts) {
                Ok(b) => {
                    enabled.push(b);
                },
                Err(e) => {
                    proof {
                        lemma_enabled_error_stays(labels, opts@, (w + 1) as int, n as int);
                    }
                    return Err(e);
                },
            }
            w = w + 1;
        }
        let seeds = self.starts_from();
        assert forall|k: int| 0 <= k < seeds.len() implies (#[trigger] seeds[k]) < graph@.nodes.len() by {
            assert(self.seeds()[k] < self.graph()@.nodes.len());
        }
        let marks = graph.reach(seeds, &enabled, DependencyDirection::Forward);
        let target_features = FeatureSet::new(graph, marks);
        let host_features = target_features.duplicate();
        Ok(CargoSet { target_features, host_features })
    }
}

/// Once a label cannot be evaluated, more labels do not change the error.
pub proof fn lemma_enabled_error_stays(
    labels: Seq<FeatureEdgeView>,
    opts: CargoOptionsView,
    m: int,
    n: int,
)
    requires
        0 <= m <= n,
        enabled_labels(labels, opts, m) is Err,
    ensures
        enabled_labels(labels, opts, n) == enabled_labels(labels, opts, m),
    decreases n - m,
{
    if m < n {
        lemma_enabled_error_stays(labels, opts, m, n - 1);
    }
}

/// Resolving twice gives the same: the features that the resolver turns
/// on are fixed by the graph, the seeds and the options.
pub proof fn lemma_resolution_is_fixed(
    g: FeatureGraphView,
    seeds: Seq<usize>,
    opts: CargoOptionsView,
    first: Seq<bool>,
    second: Seq<bool>,
)
    requires
        resolved(g, seeds, opts, first),
        resolved(g, seeds, opts, second),
    ensures
        first == second,
{
    assert(first =~= second);
}

/// More seeds turn off nothing: what the resolver turns on from some
/// seeds, it turns on from those seeds and more.
pub proof fn lemma_resolution_is_monotone(
    g: FeatureGraphView,
    seeds: Seq<usize>,
    more: Seq<usize>,
    opts: CargoOptionsView,
    marks: Seq<bool>,
    more_marks: Seq<bool>,
    v: int,
)
    requires
        resolved(g, seeds, opts, marks),
        resolved(g, more, opts, more_marks),
        forall|k: int| 0 <= k < seeds.len() ==> more.contains(#[trigger] seeds[k]),
        0 <= v < marks.len(),
        marks[v],
    ensures
        more_marks[v],
{
    let flags = enabled_labels(g.labels, opts, g.labels.len() as int)->Ok_0;
    let k = choose|k: int|
        0 <= k < seeds.len() && reached_from(
            g.edges,
            flags,
            DependencyDirection::Forward,
            (#[trigger] seeds[k]) as int,
            v,
        );
    assert(more.contains(seeds[k]));
    let j = choose|j: int| 0 <= j < more.len() && more[j] == seeds[k];
    assert(reached_from(g.edges, flags, DependencyDirection::Forward, more[j] as int, v));
}

/// Where the resolver can evaluate every label, it has for each label
/// whether it follows the edges of that label.
pub proof fn lemma_enabled_labels_at(labels: Seq<FeatureEdgeView>, opts: CargoOptionsView, n: int, i: int)
    requires
        enabled_labels(labels, opts, n) is Ok,
        0 <= i < n,
    ensures
        enabled_labels(labels, opts, n)->Ok_0.len() == n,
        edge_enabled(labels[i], opts) == Ok::<bool, ErrorView>(
            enabled_labels(labels, opts, n)->Ok_0[i],
        ),
    decreases n,
{
    if i < n - 1 {
        lemma_enabled_labels_at(labels, opts, n - 1, i);
    } else if n > 1 {
        lemma_enabled_labels_at(labels, opts, n - 1, 0);
    }
}

/// The resolver turns on what it starts from.
pub proof fn lemma_seeds_are_resolved(
    g: FeatureGraphView,
    seeds: Seq<usize>,
    opts: CargoOptionsView,
    marks: Seq<bool>,
    k: int,
)
    requires
        resolved(g, seeds, opts, marks),
        0 <= k < seeds.len(),
        seeds[k] < g.nodes.len(),
    ensures
        marks[seeds[k] as int],
{
    let flags = enabled_labels(g.labels, opts, g.labels.len() as int)->Ok_0;
    lemma_reached_self(g.edges, flags, DependencyDirection::Forward, seeds[k] as int);
}

/// What the resolver turns on, it turns on with all that the edges that
/// it follows lead to.
pub proof fn lemma_resolved_follows(
    g: FeatureGraphView,
    seeds: Seq<usize>,
    opts: CargoOptionsView,
    marks: Seq<bool>,
    e: int,
)
    requires
        resolved(g, seeds, opts, marks),
        0 <= e < g.edges.len(),
        g.edges[e].0 < g.nodes.len(),
        g.edges[e].1 < g.nodes.len(),
        g.edges[e].2 < g.labels.len(),
        edge_enabled(g.labels[g.edges[e].2 as int], opts) == Ok::<bool, ErrorView>(true),
        marks[g.edges[e].0 as int],
    ensures
        marks[g.edges[e].1 as int],
{
    let flags = enabled_labels(g.labels, opts, g.labels.len() as int)->Ok_0;
    let a = g.edges[e].0 as int;
    let b = g.edges[e].1 as int;
    lemma_enabled_labels_at(g.labels, opts, g.labels.len() as int, g.edges[e].2 as int);
    let k = choose|k: int|
        0 <= k < seeds.len() && reached_from(
            g.edges,
            flags,
            DependencyDirection::Forward,
            (#[trigger] seeds[k]) as int,
            a,
        );
    assert(crate::petgraph_support::joins(g.edges[e], a, b));
    assert(crate::reach::step(g.edges, flags, DependencyDirection::Forward, a, b));
    lemma_reached_step(g.edges, flags, DependencyDirection::Forward, seeds[k] as int, a, b);
}

/// Where the resolver turns on a feature of a package, it turns on the
/// package.
pub proof fn lemma_feature_brings_package(
    graph: &FeatureGraph,
    seeds: Seq<usize>,
    opts: CargoOptionsView,
    marks: Seq<bool>,
    p: int,
    f: int,
)
    requires
        graph.wf(),
        resolved(graph@, seeds, opts, marks),
        0 <= p < graph.package_graph()@.packages.len(),
        0 <= f < graph.package_graph()@.packages[p].features.len(),
        flag_set(marks, feature_node(graph.package_graph()@.packages, p, f)),
    ensures
        flag_set(marks, base_node(graph.package_graph()@.packages, p)),
{
    let packages = graph.package_graph()@.packages;
    graph.lemma_features_lead_to_base(p, f);
    let e = choose|e: int|
        0 <= e < graph@.edges.len() && (#[trigger] graph@.edges[e]).0 == feature_node(packages, p, f)
            && graph@.edges[e].1 == base_node(packages, p) && graph@.labels[graph@.edges[e].2 as int]
            == FeatureEdgeView::FeatureToBase;
    graph.lemma_edges_in_range(e);
    lemma_resolved_follows(graph@, seeds, opts, marks, e);
}

} // verus!
