//! Which nodes and edges a feature graph has, and how they are found.

use crate::errors::{
    FeatureBuildStage, FeatureBuildStageView, FeatureGraphWarning, FeatureGraphWarningView,
};
use crate::graph::dependency::{
    strings_view, DependencyEdgeView, DependencyMetadata, DependencyMetadataView,
    DependencyReqImpl, DependencyReqImplView, TargetPredicate, TargetPredicateView,
};
use crate::graph::graph_impl::{
    DependencyLink, PackageGraph, PackageGraphView, PackageMetadata, PackageMetadataView,
};
use crate::graph::ingest::{has_feature, FeatureEntry};
use crate::graph::workspace::last_slash;
use crate::metadata::DependencyKind;
use crate::petgraph_support::{DependencyDirection, Edge};
use crate::target_spec::types::{TargetEnumView, TargetSpec};
use crate::text::{chars_of, string_of_range};
use vstd::prelude::*;

verus! {

/// A node of the feature graph: a package, or one of its features.
#[derive(Clone, Copy, Debug, PartialEq, Eq, Hash, Structural)]
pub struct FeatureNode {
    /// The index of the package.
    pub package_ix: usize,
    /// The index of the feature among the features of the package; none
    /// for the package itself, its "base".
    pub feature_idx: Option<usize>,
}

/// What an edge of the feature graph stands for.
#[derive(Clone, Debug, PartialEq, Eq)]
pub enum FeatureEdge {
    /// From a feature to its package: who turns the feature on uses the
    /// package.
    FeatureToBase,
    /// From a named feature to a feature that it lists.
    FeatureDependency,
    /// From a package, or from the feature that stands for an optional
    /// dependency of it, to a package that it depends on or to a feature
    /// of that package.
    CrossPackage {
        /// The kind of the dependency.
        kind: DependencyKind,
        /// The platforms on which the edge holds.
        predicate: TargetPredicate,
        /// Whether the dependency is optional.
        optional: bool,
    },
}

/// The model of a [`FeatureEdge`].
pub enum FeatureEdgeView {
    FeatureToBase,
    FeatureDependency,
    CrossPackage { kind: DependencyKind, predicate: TargetPredicateView, optional: bool },
}

impl View for FeatureEdge {
    type V = FeatureEdgeView;

    open spec fn view(&self) -> FeatureEdgeView {
        match self {
            FeatureEdge::FeatureToBase => FeatureEdgeView::FeatureToBase,
            FeatureEdge::FeatureDependency => FeatureEdgeView::FeatureDependency,
            FeatureEdge::CrossPackage { kind, predicate, optional } =>
                FeatureEdgeView::CrossPackage { kind: *kind, predicate: predicate@, optional: *optional },
        }
    }
}

/// An edge that is to be: the nodes that it joins, and what it stands for.
pub type LabeledEdge = (usize, usize, FeatureEdgeView);

/// What the construction of a feature graph has come to: the edges, in
/// the order in which they were found, and the warnings.
pub struct Built {
    pub edges: Seq<LabeledEdge>,
    pub warnings: Seq<FeatureGraphWarningView>,
}

impl Built {
    pub open spec fn empty() -> Built {
        Built { edges: Seq::empty(), warnings: Seq::empty() }
    }

    pub open spec fn edge(self, from: int, to: int, label: FeatureEdgeView) -> Built {
        Built { edges: self.edges.push((from as usize, to as usize, label)), warnings: self.warnings }
    }

    pub open spec fn warning(self, w: FeatureGraphWarningView) -> Built {
        Built { edges: self.edges, warnings: self.warnings.push(w) }
    }
}

/// The index of the base node of the package `p`: the nodes of a package
/// follow those of the packages before it.
pub open spec fn base_node(packages: Seq<PackageMetadataView>, p: int) -> int
    decreases p,
{
    if p <= 0 {
        0
    } else {
        base_node(packages, p - 1) + 1 + packages[p - 1].features.len()
    }
}

/// The index of the node of the feature `f` of the package `p`: the nodes
/// of the features of a package follow its base node.
pub open spec fn feature_node(packages: Seq<PackageMetadataView>, p: int, f: int) -> int {
    base_node(packages, p) + 1 + f
}

/// The number of nodes of the feature graph.
pub open spec fn node_total(packages: Seq<PackageMetadataView>) -> int {
    base_node(packages, packages.len() as int)
}

/// The index of the feature of the given name among the features.
pub open spec fn feature_index(features: Seq<FeatureEntry>, name: Seq<char>) -> Option<int> {
    if has_feature(features, name) {
        Some(choose|i: int| 0 <= i < features.len() && (#[trigger] features[i]).0 == name)
    } else {
        None
    }
}

/// The edges from the first `nf` features of the package `p` to its base.
pub open spec fn to_base_package(packages: Seq<PackageMetadataView>, p: int, nf: int, acc: Built) -> Built
    decreases nf,
{
    if nf <= 0 {
        acc
    } else {
        to_base_package(packages, p, nf - 1, acc).edge(
            feature_node(packages, p, nf - 1),
            base_node(packages, p),
            FeatureEdgeView::FeatureToBase,
        )
    }
}

/// The edges from the features of the first `np` packages to their bases.
pub open spec fn to_base(packages: Seq<PackageMetadataView>, np: int, acc: Built) -> Built
    decreases np,
{
    if np <= 0 {
        acc
    } else {
        to_base_package(
            packages,
            np - 1,
            packages[np - 1].features.len() as int,
            to_base(packages, np - 1, acc),
        )
    }
}

/// A token of a named feature, split at its last `/`: the name of a
/// dependency, if there is one, and the name of a feature.
pub open spec fn split_feature_dep(token: Seq<char>) -> (Option<Seq<char>>, Seq<char>) {
    let i = last_slash(token, token.len() as int);
    if i < 0 {
        (None, token)
    } else {
        (Some(token.subrange(0, i)), token.subrange(i + 1, token.len() as int))
    }
}

/// Whether an edge of the package graph leaves the package `p` and goes
/// by the given name.
pub open spec fn is_named_dep(g: PackageGraphView, p: int, name: Seq<char>, edge: Edge) -> bool {
    g.edges.contains(edge) && edge.0 == p && g.links[edge.2 as int].dep_name == name
}

/// Whether an edge is the first of those that leave `p` and go by the
/// given name: the one whose details have the least index.
pub open spec fn is_first_named_dep(g: PackageGraphView, p: int, name: Seq<char>, edge: Edge) -> bool {
    is_named_dep(g, p, name, edge) && forall|other: Edge| #[trigger]
        is_named_dep(g, p, name, other) ==> edge.2 <= other.2
}

/// The dependency of the package `p` that goes by the given name.
pub open spec fn named_dep(g: PackageGraphView, p: int, name: Seq<char>) -> Option<Edge> {
    if exists|edge: Edge| is_first_named_dep(g, p, name, edge) {
        Some(choose|edge: Edge| is_first_named_dep(g, p, name, edge))
    } else {
        None
    }
}

/// The warning that a named feature asks for something that is not there.
pub open spec fn named_warning(
    g: PackageGraphView,
    p: int,
    f: int,
    feature_name: Seq<char>,
) -> FeatureGraphWarningView {
    FeatureGraphWarningView::MissingFeature {
        stage: FeatureBuildStageView::AddNamedFeatureEdges {
            package_id: g.packages[p].package.id@,
            from_feature: g.packages[p].features[f].0,
        },
        package_id: g.packages[p].package.id@,
        feature_name,
    }
}

/// What one token of the named feature `f` of the package `p` adds: an
/// edge to the feature that it names, in the package itself or in the
/// dependency that it names, and a warning where there is no such feature
/// or dependency.
pub open spec fn named_token(g: PackageGraphView, p: int, f: int, token: Seq<char>, acc: Built) -> Built {
    let (dep, feature) = split_feature_dep(token);
    let from = feature_node(g.packages, p, f);
    match dep {
        Some(dep) => match named_dep(g, p, dep) {
            Some(edge) => match feature_index(g.packages[edge.1 as int].features, feature) {
                Some(idx) => acc.edge(
                    from,
                    feature_node(g.packages, edge.1 as int, idx),
                    FeatureEdgeView::FeatureDependency,
                ),
                None => acc.warning(named_warning(g, p, f, feature)),
            },
            None => acc.warning(named_warning(g, p, f, feature)),
        },
        None => match feature_index(g.packages[p].features, feature) {
            Some(idx) => acc.edge(
                from,
                feature_node(g.packages, p, idx),
                FeatureEdgeView::FeatureDependency,
            ),
            None => acc.warning(named_warning(g, p, f, feature)),
        },
    }
}

/// What the first `nt` tokens of the named feature `f` of `p` add.
pub open spec fn named_tokens(
    g: PackageGraphView,
    p: int,
    f: int,
    tokens: Seq<Seq<char>>,
    nt: int,
    acc: Built,
) -> Built
    decreases nt,
{
    if nt <= 0 {
        acc
    } else {
        named_token(g, p, f, tokens[nt - 1], named_tokens(g, p, f, tokens, nt - 1, acc))
    }
}

/// What the first `nf` features of the package `p` add: a named feature
/// adds what its tokens add, an optional dependency nothing.
pub open spec fn named_package(g: PackageGraphView, p: int, nf: int, acc: Built) -> Built
    decreases nf,
{
    if nf <= 0 {
        acc
    } else {
        let before = named_package(g, p, nf - 1, acc);
        match g.packages[p].features[nf - 1].1 {
            Some(tokens) => named_tokens(g, p, nf - 1, tokens, tokens.len() as int, before),
            None => before,
        }
    }
}

/// What the named features of the first `np` packages add.
pub open spec fn named_all(g: PackageGraphView, np: int, acc: Built) -> Built
    decreases np,
{
    if np <= 0 {
        acc
    } else {
        named_package(g, np - 1, g.packages[np - 1].features.len() as int, named_all(g, np - 1, acc))
    }
}

/// The predicate of a declaration: everywhere without a target, and else
/// where the target holds.
pub open spec fn predicate_of(target: Option<TargetEnumView>) -> TargetPredicateView {
    match target {
        None => TargetPredicateView::Always,
        Some(spec) => TargetPredicateView::Specs(seq![spec]),
    }
}

/// What is the same for all the edges of one half of one kind of a link:
/// the node that they start from, the package that they lead to, and the
/// kind.
pub struct Half {
    pub from_node: int,
    pub from: int,
    pub to: int,
    pub dep_name: Seq<char>,
    pub kind: DependencyKind,
    pub optional: bool,
}

/// The warning that a dependency asks for a feature that is not there.
pub open spec fn dependency_warning(g: PackageGraphView, h: Half, feature_name: Seq<char>) -> FeatureGraphWarningView {
    FeatureGraphWarningView::MissingFeature {
        stage: FeatureBuildStageView::AddDependencyEdges {
            package_id: g.packages[h.from].package.id@,
            dep_name: h.dep_name,
        },
        package_id: g.packages[h.to].package.id@,
        feature_name,
    }
}

/// What the first `nf` features of one declaration add: an edge to each
/// feature that the package at the end has, on the platforms of the
/// declaration, and a warning for each that it does not have.
pub open spec fn cross_features(
    g: PackageGraphView,
    h: Half,
    target: Option<TargetEnumView>,
    features: Seq<Seq<char>>,
    nf: int,
    acc: Built,
) -> Built
    decreases nf,
{
    if nf <= 0 {
        acc
    } else {
        let before = cross_features(g, h, target, features, nf - 1, acc);
        match feature_index(g.packages[h.to].features, features[nf - 1]) {
            Some(idx) => before.edge(
                h.from_node,
                feature_node(g.packages, h.to, idx),
                FeatureEdgeView::CrossPackage {
                    kind: h.kind,
                    predicate: predicate_of(target),
                    optional: h.optional,
                },
            ),
            None => before.warning(dependency_warning(g, h, features[nf - 1])),
        }
    }
}

/// What the first `nd` declarations of a half add.
pub open spec fn cross_declarations(
    g: PackageGraphView,
    h: Half,
    declarations: Seq<(Option<TargetEnumView>, Seq<Seq<char>>)>,
    nd: int,
    acc: Built,
) -> Built
    decreases nd,
{
    if nd <= 0 {
        acc
    } else {
        cross_features(
            g,
            h,
            declarations[nd - 1].0,
            declarations[nd - 1].1,
            declarations[nd - 1].1.len() as int,
            cross_declarations(g, h, declarations, nd - 1, acc),
        )
    }
}

/// What one half of one kind of a link adds, if it holds a declaration:
/// an edge to the base of the package at the end, on the platforms on
/// which the dependency is built; an edge to its feature `default`, if it
/// has one, on the platforms on which the default features are built; and
/// what the declarations add.
pub open spec fn cross_half(g: PackageGraphView, h: Half, req: DependencyReqImplView, acc: Built) -> Built {
    if req.target_features.len() == 0 {
        acc
    } else {
        let with_base = acc.edge(
            h.from_node,
            base_node(g.packages, h.to),
            FeatureEdgeView::CrossPackage {
                kind: h.kind,
                predicate: req.build_if,
                optional: h.optional,
            },
        );
        let with_default = match feature_index(g.packages[h.to].features, "default"@) {
            Some(idx) => if req.default_features_if.is_empty() {
                with_base
            } else {
                with_base.edge(
                    h.from_node,
                    feature_node(g.packages, h.to, idx),
                    FeatureEdgeView::CrossPackage {
                        kind: h.kind,
                        predicate: req.default_features_if,
                        optional: h.optional,
                    },
                )
            },
            None => with_base,
        };
        cross_declarations(g, h, req.target_features, req.target_features.len() as int, with_default)
    }
}

/// The node that the edges of the optional half of a link start from:
/// the feature of the package that has the dependency's name.
pub open spec fn optional_node(g: PackageGraphView, edge: Edge) -> int {
    match feature_index(g.packages[edge.0 as int].features, g.links[edge.2 as int].dep_name) {
        Some(idx) => feature_node(g.packages, edge.0 as int, idx),
        None => base_node(g.packages, edge.0 as int),
    }
}

/// What one kind of a link adds: what its mandatory half adds, from the
/// base of the package that has the dependency, and what its optional
/// half adds, from the feature that stands for the dependency.
pub open spec fn cross_kind(
    g: PackageGraphView,
    edge: Edge,
    kind: DependencyKind,
    metadata: Option<DependencyMetadataView>,
    acc: Built,
) -> Built {
    match metadata {
        None => acc,
        Some(m) => {
            let mandatory = Half {
                from_node: base_node(g.packages, edge.0 as int),
                from: edge.0 as int,
                to: edge.1 as int,
                dep_name: g.links[edge.2 as int].dep_name,
                kind,
                optional: false,
            };
            let optional = Half {
                from_node: optional_node(g, edge),
                from: edge.0 as int,
                to: edge.1 as int,
                dep_name: g.links[edge.2 as int].dep_name,
                kind,
                optional: true,
            };
            cross_half(
                g,
                optional,
                m.dependency_req.optional,
                cross_half(g, mandatory, m.dependency_req.mandatory, acc),
            )
        },
    }
}

/// What one link of the package graph adds: what its normal and its build
/// dependency add, and, where the package that has the dependency is in
/// the workspace, what its development dependency adds.
pub open spec fn cross_link(g: PackageGraphView, edge: Edge, acc: Built) -> Built {
    let link = g.links[edge.2 as int];
    let normal = cross_kind(g, edge, DependencyKind::Normal, link.normal, acc);
    let build = cross_kind(g, edge, DependencyKind::Build, link.build, normal);
    if g.packages[edge.0 as int].workspace_path is Some {
        cross_kind(g, edge, DependencyKind::Development, link.dev, build)
    } else {
        build
    }
}

/// What the first `ne` links of the package graph add.
pub open spec fn cross_all(g: PackageGraphView, ne: int, acc: Built) -> Built
    decreases ne,
{
    if ne <= 0 {
        acc
    } else {
        cross_link(g, g.edges[ne - 1], cross_all(g, ne - 1, acc))
    }
}

/// The edges and the warnings of the feature graph of a package graph:
/// first the edges from the features to their packages, then what the
/// named features add, then what the links of the package graph add.
pub open spec fn built_of(g: PackageGraphView) -> Built {
    cross_all(
        g,
        g.edges.len() as int,
        named_all(
            g,
            g.packages.len() as int,
            to_base(g.packages, g.packages.len() as int, Built::empty()),
        ),
    )
}

/// The edges and the warnings of a feature graph as they are found.
pub struct Emitted {
    /// The number of nodes that the edges are between.
    pub total: usize,
    /// The ends of the edges.
    pub ends: Vec<(usize, usize)>,
    /// What the edges stand for; as many as there are ends.
    pub labels: Vec<FeatureEdge>,
    pub warnings: Vec<FeatureGraphWarning>,
}

/// The models of edges that are to be.
pub open spec fn labeled_view(ends: Seq<(usize, usize)>, labels: Seq<FeatureEdge>) -> Seq<
    LabeledEdge,
> {
    Seq::new(ends.len(), |i: int| (ends[i].0, ends[i].1, labels[i]@))
}

/// The models of warnings.
pub open spec fn warnings_view(v: Seq<FeatureGraphWarning>) -> Seq<FeatureGraphWarningView> {
    Seq::new(v.len(), |i: int| v[i]@)
}

impl View for Emitted {
    type V = Built;

    open spec fn view(&self) -> Built {
        Built {
            edges: labeled_view(self.ends@, self.labels@),
            warnings: warnings_view(self.warnings@),
        }
    }
}

/// Whether the edges join nodes below `total`.
pub open spec fn edges_fit(edges: Seq<LabeledEdge>, total: int) -> bool {
    forall|k: int| 0 <= k < edges.len() ==> (#[trigger] edges[k]).0 < total && edges[k].1 < total
}

/// Whether `after` starts with the edges of `before`.
pub open spec fn extends(before: Built, after: Built) -> bool {
    &&& before.edges.len() <= after.edges.len()
    &&& forall|k: int| 0 <= k < before.edges.len() ==> (#[trigger] after.edges[k]) == before.edges[k]
}

impl Emitted {
    /// Whether the edges join nodes that are there.
    pub open spec fn fits(&self) -> bool {
        self.ends.len() == self.labels.len() && edges_fit(self@.edges, self.total as int)
    }

    /// Whether `self` came from `before` by more edges and warnings.
    pub open spec fn grew_from(&self, before: Emitted) -> bool {
        self.fits() && self.total == before.total && extends(before@, self@)
    }

    pub fn new(total: usize) -> (r: Emitted)
        ensures
            r@ == Built::empty(),
            r.total == total,
            r.fits(),
    {
        let r = Emitted { total, ends: Vec::new(), labels: Vec::new(), warnings: Vec::new() };
        assert(r@.edges =~= Seq::empty());
        assert(r@.warnings =~= Seq::empty());
        r
    }

    pub fn edge(&mut self, from: usize, to: usize, label: FeatureEdge)
        requires
            old(self).fits(),
            from < old(self).total,
            to < old(self).total,
        ensures
            final(self)@ == old(self)@.edge(from as int, to as int, label@),
            final(self).grew_from(*old(self)),
    {
        let ghost before = self@;
        self.ends.push((from, to));
        self.labels.push(label);
        assert(self@.edges =~= before.edges.push((from, to, label@)));
        assert(self@.warnings =~= before.warnings);
    }

    pub fn warning(&mut self, w: FeatureGraphWarning)
        requires
            old(self).fits(),
        ensures
            final(self)@ == old(self)@.warning(w@),
            final(self).grew_from(*old(self)),
    {
        let ghost before = self@;
        self.warnings.push(w);
        assert(self@.warnings =~= before.warnings.push(w@));
        assert(self@.edges =~= before.edges);
    }
}

/// Whether the layout gives the base node of each package, and the nodes
/// can be counted.
pub open spec fn layout_of(layout: Seq<usize>, packages: Seq<PackageMetadataView>) -> bool {
    &&& layout.len() == packages.len()
    &&& node_total(packages) <= u32::MAX
    &&& forall|p: int| 0 <= p < layout.len() ==> (#[trigger] layout[p]) == base_node(packages, p)
}

/// The nodes of a package lie between its base node and the base node of
/// the package behind it.
pub proof fn lemma_base_node_rises(packages: Seq<PackageMetadataView>, p: int, q: int)
    requires
        0 <= p <= q,
    ensures
        0 <= base_node(packages, p) <= base_node(packages, q),
        p < q ==> base_node(packages, p) + 1 + packages[p].features.len() <= base_node(packages, q),
    decreases q,
{
    if p < q {
        lemma_base_node_rises(packages, p, q - 1);
    } else if p > 0 {
        lemma_base_node_rises(packages, 0, p - 1);
        lemma_base_node_rises(packages, p - 1, p - 1);
    }
}

/// The node of a feature of a package is one of the nodes of the graph.
pub proof fn lemma_feature_node_fits(packages: Seq<PackageMetadataView>, p: int, f: int)
    requires
        0 <= p < packages.len(),
        0 <= f < packages[p].features.len(),
    ensures
        0 <= base_node(packages, p) < feature_node(packages, p, f) < node_total(packages),
{
    lemma_base_node_rises(packages, p, packages.len() as int);
    lemma_base_node_rises(packages, 0, p);
}

/// The base node of a package is one of the nodes of the graph.
pub proof fn lemma_base_node_fits(packages: Seq<PackageMetadataView>, p: int)
    requires
        0 <= p < packages.len(),
    ensures
        0 <= base_node(packages, p) < node_total(packages),
{
    lemma_base_node_rises(packages, p, packages.len() as int);
    lemma_base_node_rises(packages, 0, p);
}

/// Among features with distinct names, a feature is found by its name.
pub proof fn lemma_feature_index(features: Seq<FeatureEntry>, i: int)
    requires
        0 <= i < features.len(),
        forall|a: int, b: int|
            0 <= a < features.len() && 0 <= b < features.len() && a != b ==> (
            #[trigger] features[a]).0 != (#[trigger] features[b]).0,
    ensures
        feature_index(features, features[i].0) == Some(i),
{
    let name = features[i].0;
    let j = choose|j: int| 0 <= j < features.len() && (#[trigger] features[j]).0 == name;
    assert(j == i);
}

/// The index of a feature of a package, by its name.
pub fn find_feature(package: &PackageMetadata, name: &str) -> (r: Option<usize>)
    requires
        package.rep_ok(),
        package@.wf(),
    ensures
        match r {
            Some(i) => feature_index(package@.features, name@) == Some(i as int) && i
                < package@.features.len(),
            None => feature_index(package@.features, name@) is None,
        },
{
    let r = package.get_feature_idx(name);
    proof {
        if let Some(i) = r {
            lemma_feature_index(package@.features, i as int);
        }
    }
    r
}

/// The edge from the feature `f` of the package `p` to the package.
pub open spec fn to_base_edge(packages: Seq<PackageMetadataView>, p: int, f: int) -> LabeledEdge {
    (
        feature_node(packages, p, f) as usize,
        base_node(packages, p) as usize,
        FeatureEdgeView::FeatureToBase,
    )
}

/// Adds the edges from the features to their packages.
#[verifier::loop_isolation(false)]
pub fn add_to_base(graph: &PackageGraph, layout: &Vec<usize>, em: &mut Emitted)
    requires
        graph.wf(),
        layout_of(layout@, graph@.packages),
        old(em).fits(),
        old(em).total == node_total(graph@.packages),
    ensures
        final(em)@ == to_base(graph@.packages, graph@.packages.len() as int, old(em)@),
        final(em).grew_from(*old(em)),
        forall|p: int, f: int|
            0 <= p < graph@.packages.len() && 0 <= f < graph@.packages[p].features.len()
                ==> final(em)@.edges.contains(
                #[trigger] to_base_edge(graph@.packages, p, f),
            ),
{
    let ghost packages = graph@.packages;
    let n = graph.packages().len();
    let mut p: usize = 0;
    while p < n
        invariant
            p <= n,
            n == packages.len(),
            em@ == to_base(packages, p as int, old(em)@),
            em.grew_from(*old(em)),
            forall|q: int, f: int|
                0 <= q < p && 0 <= f < packages[q].features.len() ==> em@.edges.contains(
                    #[trigger] to_base_edge(packages, q, f),
                ),
        decreases n - p,
    {
        let package = graph.package_at(p);
        let nf = package.feature_count();
        let ghost start = em@;
        let mut f: usize = 0;
        while f < nf
            invariant
                f <= nf,
                nf == packages[p as int].features.len(),
                em@ == to_base_package(packages, p as int, f as int, start),
                em.grew_from(*old(em)),
                forall|q: int, h: int|
                    0 <= q < p && 0 <= h < packages[q].features.len() ==> em@.edges.contains(
                        #[trigger] to_base_edge(packages, q, h),
                    ),
                forall|h: int|
                    0 <= h < f ==> em@.edges.contains(#[trigger] to_base_edge(packages, p as int, h)),
            decreases nf - f,
        {
            proof {
                lemma_feature_node_fits(packages, p as int, f as int);
            }
            let ghost before = em@;
            em.edge(layout[p] + 1 + f, layout[p], FeatureEdge::FeatureToBase);
            proof {
                assert(em@.edges[before.edges.len() as int] == to_base_edge(packages, p as int, f as int));
                assert forall|x: LabeledEdge| before.edges.contains(x) implies em@.edges.contains(
                    x,
                ) by {
                    let k = choose|k: int| 0 <= k < before.edges.len() && before.edges[k] == x;
                    assert(em@.edges[k] == x);
                }
            }
            f = f + 1;
        }
        p = p + 1;
    }
}

/// Splits a token of a named feature at its last `/`.
#[verifier::loop_isolation(false)]
pub fn split_token(token: &str) -> (r: (Option<String>, String))
    ensures
        match r.0 {
            Some(dep) => split_feature_dep(token@).0 == Some(dep@),
            None => split_feature_dep(token@).0 is None,
        },
        r.1@ == split_feature_dep(token@).1,
{
    let chars = chars_of(token);
    let mut n: usize = chars.len();
    while n > 0 && chars[n - 1] != '/'
        invariant
            n <= chars.len(),
            last_slash(chars@, chars@.len() as int) == last_slash(chars@, n as int),
        decreases n,
    {
        n = n - 1;
    }
    if n == 0 {
        (None, token.to_owned())
    } else {
        (Some(string_of_range(&chars, 0, n - 1)), string_of_range(&chars, n, chars.len()))
    }
}

/// Finds the dependency of the package `p` that goes by the given name.
#[verifier::loop_isolation(false)]
pub fn find_named_dep(graph: &PackageGraph, p: usize, name: &str) -> (r: Option<Edge>)
    requires
        graph.wf(),
        p < graph@.packages.len(),
    ensures
        r == named_dep(graph@, p as int, name@),
        r matches Some(edge) ==> graph@.edges.contains(edge) && edge.0 == p,
{
    let ghost g = graph@;
    let edges = graph.edges_directed(p, DependencyDirection::Forward);
    let mut best: Option<Edge> = None;
    let mut i: usize = 0;
    while i < edges.len()
        invariant
            i <= edges.len(),
            match best {
                Some(b) => is_named_dep(g, p as int, name@, b) && forall|k: int|
                    0 <= k < i && is_named_dep(g, p as int, name@, #[trigger] edges[k]) ==> b.2
                        <= edges[k].2,
                None => forall|k: int|
                    0 <= k < i ==> !is_named_dep(g, p as int, name@, #[trigger] edges[k]),
            },
        decreases edges.len() - i,
    {
        let edge = edges[i];
        proof {
            assert(g.edges.contains(edge));
            let e = choose|e: int| 0 <= e < g.edges.len() && g.edges[e] == edge;
            assert(g.edges[e].2 < g.links.len());
        }
        if crate::text::str_eq(graph.link_details(edge.2).dep_name(), name) {
            let better = match best {
                Some(b) => edge.2 < b.2,
                None => true,
            };
            if better {
                best = Some(edge);
            }
        }
        i = i + 1;
    }
    proof {
        match best {
            Some(b) => {
                assert forall|other: Edge| #[trigger]
                    is_named_dep(g, p as int, name@, other) implies b.2 <= other.2 by {
                    let e = choose|e: int| 0 <= e < g.edges.len() && g.edges[e] == other;
                    assert(edges@.contains(g.edges[e]));
                    let k = choose|k: int| 0 <= k < edges.len() && edges[k] == other;
                    assert(is_named_dep(g, p as int, name@, edges[k]));
                }
                assert(is_first_named_dep(g, p as int, name@, b));
                let c = choose|edge: Edge| is_first_named_dep(g, p as int, name@, edge);
                assert(is_named_dep(g, p as int, name@, c));
                assert(is_named_dep(g, p as int, name@, b));
                assert(c.2 == b.2);
                let x = choose|x: int| 0 <= x < g.edges.len() && g.edges[x] == c;
                let y = choose|y: int| 0 <= y < g.edges.len() && g.edges[y] == b;
                assert(x == y);
            },
            None => {
                assert forall|edge: Edge| !is_first_named_dep(g, p as int, name@, edge) by {
                    if is_named_dep(g, p as int, name@, edge) {
                        let e = choose|e: int| 0 <= e < g.edges.len() && g.edges[e] == edge;
                        assert(edges@.contains(g.edges[e]));
                        let k = choose|k: int| 0 <= k < edges.len() && edges[k] == edge;
                        assert(!is_named_dep(g, p as int, name@, edges[k]));
                    }
                }
            },
        }
    }
    best
}

/// Adds what one token of a named feature adds.
pub fn add_named_token(
    graph: &PackageGraph,
    layout: &Vec<usize>,
    p: usize,
    f: usize,
    token: &str,
    em: &mut Emitted,
)
    requires
        graph.wf(),
        layout_of(layout@, graph@.packages),
        p < graph@.packages.len(),
        f < graph@.packages[p as int].features.len(),
        old(em).fits(),
        old(em).total == node_total(graph@.packages),
    ensures
        final(em)@ == named_token(graph@, p as int, f as int, token@, old(em)@),
        final(em).grew_from(*old(em)),
{
    let ghost g = graph@;
    let package = graph.package_at(p);
    let (dep, feature) = split_token(token);
    proof {
        lemma_feature_node_fits(g.packages, p as int, f as int);
        lemma_base_node_rises(g.packages, 0, g.packages.len() as int);
    }
    let from = layout[p] + 1 + f;
    let target = match &dep {
        Some(dep) => match find_named_dep(graph, p, dep.as_str()) {
            Some(edge) => {
                proof {
                    let e = choose|e: int| 0 <= e < g.edges.len() && g.edges[e] == edge;
                    assert(g.edges[e].1 < g.packages.len());
                }
                Some(edge.1)
            },
            None => None,
        },
        None => Some(p),
    };
    let found = match target {
        Some(to) => match find_feature(graph.package_at(to), feature.as_str()) {
            Some(idx) => {
                proof {
                    lemma_feature_node_fits(g.packages, to as int, idx as int);
                }
                Some(layout[to] + 1 + idx)
            },
            None => None,
        },
        None => None,
    };
    match found {
        Some(to_node) => {
            em.edge(from, to_node, FeatureEdge::FeatureDependency);
        },
        None => {
            em.warning(
                FeatureGraphWarning::MissingFeature {
                    stage: FeatureBuildStage::AddNamedFeatureEdges {
                        package_id: package.id().duplicate(),
                        from_feature: package.feature_name(f).to_owned(),
                    },
                    package_id: package.id().duplicate(),
                    feature_name: feature,
                },
            );
        },
    }
}

/// Adds what the named features add.
#[verifier::loop_isolation(false)]
pub fn add_named(graph: &PackageGraph, layout: &Vec<usize>, em: &mut Emitted)
    requires
        graph.wf(),
        layout_of(layout@, graph@.packages),
        old(em).fits(),
        old(em).total == node_total(graph@.packages),
    ensures
        final(em)@ == named_all(graph@, graph@.packages.len() as int, old(em)@),
        final(em).grew_from(*old(em)),
{
    let ghost g = graph@;
    let n = graph.packages().len();
    let mut p: usize = 0;
    while p < n
        invariant
            p <= n,
            n == g.packages.len(),
            em@ == named_all(g, p as int, old(em)@),
            em.grew_from(*old(em)),
        decreases n - p,
    {
        let package = graph.package_at(p);
        let nf = package.feature_count();
        let ghost start = em@;
        let mut f: usize = 0;
        while f < nf
            invariant
                f <= nf,
                nf == g.packages[p as int].features.len(),
                em@ == named_package(g, p as int, f as int, start),
                em.grew_from(*old(em)),
            decreases nf - f,
        {
            match package.feature_deps(f) {
                Some(tokens) => {
                    let ghost list = strings_view(tokens@);
                    let ghost before = em@;
                    let mut t: usize = 0;
                    while t < tokens.len()
                        invariant
                            t <= tokens.len(),
                            em@ == named_tokens(g, p as int, f as int, list, t as int, before),
                            em.grew_from(*old(em)),
                        decreases tokens.len() - t,
                    {
                        add_named_token(graph, layout, p, f, tokens[t].as_str(), em);
                        assert(list[t as int] == tokens[t as int]@);
                        t = t + 1;
                    }
                },
                None => {},
            }
            f = f + 1;
        }
        p = p + 1;
    }
}

/// One half of one kind of a link, as it is worked on.
pub struct HalfEdge {
    pub from_node: usize,
    pub edge: Edge,
    pub kind: DependencyKind,
    pub optional: bool,
}

impl HalfEdge {
    /// What is the same for all the edges of the half.
    pub open spec fn model(&self, g: PackageGraphView) -> Half {
        Half {
            from_node: self.from_node as int,
            from: self.edge.0 as int,
            to: self.edge.1 as int,
            dep_name: g.links[self.edge.2 as int].dep_name,
            kind: self.kind,
            optional: self.optional,
        }
    }

    /// Whether the half is one of an edge of the graph, and starts from a
    /// node that is there.
    pub open spec fn within(&self, g: PackageGraphView) -> bool {
        g.edges.contains(self.edge) && self.from_node < node_total(g.packages)
    }
}

/// The specifications of a predicate for one declaration.
pub fn predicate_for(target: &Option<TargetSpec>) -> (r: TargetPredicate)
    ensures
        r@ == predicate_of(crate::graph::dependency::opt_spec_view(*target)),
{
    match target {
        None => TargetPredicate::Always,
        Some(spec) => {
            let mut specs: Vec<TargetSpec> = Vec::new();
            specs.push(spec.duplicate());
            assert(crate::graph::dependency::spec_views(specs@) =~= seq![spec@]);
            TargetPredicate::Specs(specs)
        },
    }
}

/// Adds what the features of one declaration add.
#[verifier::loop_isolation(false)]
pub fn add_cross_features(
    graph: &PackageGraph,
    layout: &Vec<usize>,
    h: &HalfEdge,
    target: &Option<TargetSpec>,
    features: &Vec<String>,
    em: &mut Emitted,
)
    requires
        graph.wf(),
        layout_of(layout@, graph@.packages),
        h.within(graph@),
        old(em).fits(),
        old(em).total == node_total(graph@.packages),
    ensures
        final(em)@ == cross_features(
            graph@,
            h.model(graph@),
            crate::graph::dependency::opt_spec_view(*target),
            strings_view(features@),
            features.len() as int,
            old(em)@,
        ),
        final(em).grew_from(*old(em)),
{
    let ghost g = graph@;
    proof {
        let e = choose|e: int| 0 <= e < g.edges.len() && g.edges[e] == h.edge;
        assert(g.edges[e].2 < g.links.len());
    }
    let from = graph.package_at(h.edge.0);
    let to = graph.package_at(h.edge.1);
    let link = graph.link_details(h.edge.2);
    let ghost list = strings_view(features@);
    let ghost tv = crate::graph::dependency::opt_spec_view(*target);
    let mut i: usize = 0;
    while i < features.len()
        invariant
            i <= features.len(),
            em@ == cross_features(g, h.model(g), tv, list, i as int, old(em)@),
            em.grew_from(*old(em)),
        decreases features.len() - i,
    {
        assert(list[i as int] == features[i as int]@);
        match find_feature(to, features[i].as_str()) {
            Some(idx) => {
                proof {
                    lemma_feature_node_fits(g.packages, h.edge.1 as int, idx as int);
                }
                em.edge(
                    h.from_node,
                    layout[h.edge.1] + 1 + idx,
                    FeatureEdge::CrossPackage {
                        kind: h.kind,
                        predicate: predicate_for(target),
                        optional: h.optional,
                    },
                );
            },
            None => {
                em.warning(
                    FeatureGraphWarning::MissingFeature {
                        stage: FeatureBuildStage::AddDependencyEdges {
                            package_id: from.id().duplicate(),
                            dep_name: link.dep_name().to_owned(),
                        },
                        package_id: to.id().duplicate(),
                        feature_name: features[i].clone(),
                    },
                );
            },
        }
        i = i + 1;
    }
}

/// Adds what one half of one kind of a link adds.
#[verifier::loop_isolation(false)]
pub fn add_cross_half(
    graph: &PackageGraph,
    layout: &Vec<usize>,
    h: &HalfEdge,
    req: &DependencyReqImpl,
    em: &mut Emitted,
)
    requires
        graph.wf(),
        layout_of(layout@, graph@.packages),
        h.within(graph@),
        old(em).fits(),
        old(em).total == node_total(graph@.packages),
    ensures
        final(em)@ == cross_half(graph@, h.model(graph@), req@, old(em)@),
        final(em).grew_from(*old(em)),
{
    let ghost g = graph@;
    if req.target_features.len() == 0 {
        return ;
    }
    proof {
        let e = choose|e: int| 0 <= e < g.edges.len() && g.edges[e] == h.edge;
        assert(g.edges[e].1 < g.packages.len());
        lemma_base_node_fits(g.packages, h.edge.1 as int);
    }
    let to = graph.package_at(h.edge.1);
    em.edge(
        h.from_node,
        layout[h.edge.1],
        FeatureEdge::CrossPackage {
            kind: h.kind,
            predicate: req.build_if.duplicate(),
            optional: h.optional,
        },
    );
    match find_feature(to, "default") {
        Some(idx) => {
            if !req.default_features_if.is_empty() {
                proof {
                    lemma_feature_node_fits(g.packages, h.edge.1 as int, idx as int);
                }
                em.edge(
                    h.from_node,
                    layout[h.edge.1] + 1 + idx,
                    FeatureEdge::CrossPackage {
                        kind: h.kind,
                        predicate: req.default_features_if.duplicate(),
                        optional: h.optional,
                    },
                );
            }
        },
        None => {},
    }
    let ghost start = em@;
    let ghost declarations = req@.target_features;
    let mut d: usize = 0;
    while d < req.target_features.len()
        invariant
            d <= req.target_features.len(),
            em@ == cross_declarations(g, h.model(g), declarations, d as int, start),
            em.grew_from(*old(em)),
        decreases req.target_features.len() - d,
    {
        assert(declarations[d as int] == (
            crate::graph::dependency::opt_spec_view(req.target_features[d as int].0),
            strings_view(req.target_features[d as int].1@),
        ));
        add_cross_features(
            graph,
            layout,
            h,
            &req.target_features[d].0,
            &req.target_features[d].1,
            em,
        );
        d = d + 1;
    }
}

/// Adds what one kind of a link adds.
pub fn add_cross_kind(
    graph: &PackageGraph,
    layout: &Vec<usize>,
    edge: Edge,
    kind: DependencyKind,
    metadata: Option<&DependencyMetadata>,
    em: &mut Emitted,
)
    requires
        graph.wf(),
        layout_of(layout@, graph@.packages),
        graph@.edges.contains(edge),
        old(em).fits(),
        old(em).total == node_total(graph@.packages),
    ensures
        final(em)@ == cross_kind(
            graph@,
            edge,
            kind,
            match metadata {
                Some(m) => Some(m@),
                None => None,
            },
            old(em)@,
        ),
        final(em).grew_from(*old(em)),
{
    let ghost g = graph@;
    match metadata {
        None => {},
        Some(m) => {
            proof {
                let e = choose|e: int| 0 <= e < g.edges.len() && g.edges[e] == edge;
                assert(g.edges[e].0 < g.packages.len() && g.edges[e].2 < g.links.len());
                lemma_base_node_fits(g.packages, edge.0 as int);
            }
            let from = graph.package_at(edge.0);
            let link = graph.link_details(edge.2);
            let mandatory = HalfEdge { from_node: layout[edge.0], edge, kind, optional: false };
            add_cross_half(graph, layout, &mandatory, &m.dependency_req.mandatory, em);
            let from_node = match find_feature(from, link.dep_name()) {
                Some(idx) => {
                    proof {
                        lemma_feature_node_fits(g.packages, edge.0 as int, idx as int);
                    }
                    layout[edge.0] + 1 + idx
                },
                None => layout[edge.0],
            };
            let optional = HalfEdge { from_node, edge, kind, optional: true };
            add_cross_half(graph, layout, &optional, &m.dependency_req.optional, em);
        },
    }
}

/// Adds what one link of the package graph adds.
pub fn add_cross_link(graph: &PackageGraph, layout: &Vec<usize>, edge: Edge, em: &mut Emitted)
    requires
        graph.wf(),
        layout_of(layout@, graph@.packages),
        graph@.edges.contains(edge),
        old(em).fits(),
        old(em).total == node_total(graph@.packages),
    ensures
        final(em)@ == cross_link(graph@, edge, old(em)@),
        final(em).grew_from(*old(em)),
{
    let ghost g = graph@;
    proof {
        let e = choose|e: int| 0 <= e < g.edges.len() && g.edges[e] == edge;
        assert(g.edges[e].0 < g.packages.len() && g.edges[e].2 < g.links.len());
    }
    let link = graph.link_details(edge.2);
    add_cross_kind(graph, layout, edge, DependencyKind::Normal, link.normal(), em);
    add_cross_kind(graph, layout, edge, DependencyKind::Build, link.build(), em);
    if graph.package_at(edge.0).in_workspace() {
        add_cross_kind(graph, layout, edge, DependencyKind::Development, link.dev(), em);
    }
}

/// Adds what the links of the package graph add.
#[verifier::loop_isolation(false)]
pub fn add_cross(graph: &PackageGraph, layout: &Vec<usize>, em: &mut Emitted)
    requires
        graph.wf(),
        layout_of(layout@, graph@.packages),
        old(em).fits(),
        old(em).total == node_total(graph@.packages),
    ensures
        final(em)@ == cross_all(graph@, graph@.edges.len() as int, old(em)@),
        final(em).grew_from(*old(em)),
{
    let ghost g = graph@;
    let edges = graph.all_edges();
    let mut e: usize = 0;
    while e < edges.len()
        invariant
            e <= edges.len(),
            em@ == cross_all(g, e as int, old(em)@),
            em.grew_from(*old(em)),
        decreases edges.len() - e,
    {
        assert(g.edges.contains(edges[e as int]));
        add_cross_link(graph, layout, edges[e], em);
        e = e + 1;
    }
}

/// Finds the base node of each package. There is no layout where the
/// nodes are more than can be counted.
#[verifier::loop_isolation(false)]
pub fn compute_layout(graph: &PackageGraph) -> (r: Option<Vec<usize>>)
    requires
        graph.wf(),
    ensures
        match r {
            Some(layout) => layout_of(layout@, graph@.packages),
            None => node_total(graph@.packages) > u32::MAX,
        },
{
    let ghost packages = graph@.packages;
    let n = graph.packages().len();
    let mut layout: Vec<usize> = Vec::new();
    let mut next: usize = 0;
    let mut p: usize = 0;
    while p < n
        invariant
            p <= n,
            n == packages.len(),
            layout.len() == p,
            next == base_node(packages, p as int),
            next <= u32::MAX,
            forall|q: int| 0 <= q < p ==> (#[trigger] layout[q]) == base_node(packages, q),
        decreases n - p,
    {
        let nf = graph.package_at(p).feature_count();
        proof {
            lemma_base_node_rises(packages, (p + 1) as int, n as int);
        }
        if nf >= 0xffff_ffff || next >= 0xffff_ffff - nf {
            return None;
        }
        layout.push(next);
        next = next + 1 + nf;
        p = p + 1;
    }
    Some(layout)
}

/// Finds the edges and the warnings of the feature graph of a package
/// graph.
pub fn emit(graph: &PackageGraph, layout: &Vec<usize>) -> (r: Emitted)
    requires
        graph.wf(),
        layout_of(layout@, graph@.packages),
    ensures
        r@ == built_of(graph@),
        r.fits(),
        r.total == node_total(graph@.packages),
        forall|p: int, f: int|
            0 <= p < graph@.packages.len() && 0 <= f < graph@.packages[p].features.len()
                ==> r@.edges.contains(#[trigger] to_base_edge(graph@.packages, p, f)),
{
    let ghost g = graph@;
    proof {
        lemma_base_node_rises(g.packages, 0, g.packages.len() as int);
    }
    let total = if layout.len() == 0 {
        0
    } else {
        let last = layout.len() - 1;
        proof {
            lemma_base_node_rises(g.packages, last as int, g.packages.len() as int);
            lemma_base_node_rises(g.packages, g.packages.len() as int, g.packages.len() as int);
        }
        layout[last] + 1 + graph.package_at(last).feature_count()
    };
    let mut em = Emitted::new(total);
    add_to_base(graph, layout, &mut em);
    let ghost based = em@;
    add_named(graph, layout, &mut em);
    let ghost named = em@;
    add_cross(graph, layout, &mut em);
    proof {
        assert forall|p: int, f: int|
            0 <= p < g.packages.len() && 0 <= f < g.packages[p].features.len() implies em@.edges.contains(
            #[trigger] to_base_edge(g.packages, p, f),
        ) by {
            let x = to_base_edge(g.packages, p, f);
            assert(based.edges.contains(x));
            let k = choose|k: int| 0 <= k < based.edges.len() && based.edges[k] == x;
            assert(named.edges[k] == x);
            assert(em@.edges[k] == x);
        }
    }
    em
}

} // verus!
