//! The feature graph of a package graph.

use crate::errors::{Error, ErrorView, FeatureGraphWarning, FeatureGraphWarningView};
use crate::graph::assemble::graph_with_nodes;
use crate::graph::feature::construct::{
    base_node, built_of, compute_layout, emit, feature_node, layout_of,
    lemma_base_node_fits, lemma_base_node_rises, lemma_feature_node_fits, node_total,
    to_base_edge, warnings_view, Built, Emitted, FeatureEdge, FeatureEdgeView, FeatureNode,
    LabeledEdge,
};
use crate::graph::graph_impl::{PackageGraph, PackageGraphView, PackageMetadataView};
use crate::metadata::PackageId;
use crate::petgraph_support::{
    components_of, edges_in_range, edges_of, graph_add_edge, graph_edge_count,
    graph_node_count, graph_sccs, node_count_of, DependencyDirection, Edge,
};
use petgraph::graph::Graph;
use petgraph::Directed;
use vstd::prelude::*;

verus! {

/// The models of the labels of edges.
pub open spec fn labels_view(v: Seq<FeatureEdge>) -> Seq<FeatureEdgeView> {
    Seq::new(v.len(), |i: int| v[i]@)
}

/// The model of a feature graph.
pub struct FeatureGraphView {
    /// The nodes, by node index.
    pub nodes: Seq<FeatureNode>,
    /// The edges, by edge index, each with the index of its label.
    pub edges: Seq<Edge>,
    /// What the edges stand for.
    pub labels: Seq<FeatureEdgeView>,
    /// The warnings of the construction.
    pub warnings: Seq<FeatureGraphWarningView>,
}

/// Whether the nodes are those of the packages: for each package its base
/// node, and behind it a node for each of its features.
pub open spec fn nodes_of(nodes: Seq<FeatureNode>, packages: Seq<PackageMetadataView>) -> bool {
    &&& nodes.len() == node_total(packages)
    &&& forall|p: int|
        0 <= p < packages.len() ==> nodes[#[trigger] base_node(packages, p)] == (FeatureNode {
            package_ix: p as usize,
            feature_idx: None,
        })
    &&& forall|p: int, f: int|
        0 <= p < packages.len() && 0 <= f < packages[p].features.len() ==> nodes[#[trigger] feature_node(
            packages,
            p,
            f,
        )] == (FeatureNode { package_ix: p as usize, feature_idx: Some(f as usize) })
}

/// Whether the edges with their labels are those that were found, in the
/// same order.
pub open spec fn edges_as_built(edges: Seq<Edge>, labels: Seq<FeatureEdgeView>, built: Seq<LabeledEdge>) -> bool {
    &&& edges.len() == built.len()
    &&& labels.len() == built.len()
    &&& forall|k: int|
        0 <= k < built.len() ==> (#[trigger] edges[k]) == (built[k].0, built[k].1, k as usize)
            && labels[k] == built[k].2
}

/// Whether a feature graph is that of a package graph.
pub open spec fn feature_graph_of(fg: FeatureGraphView, pg: PackageGraphView) -> bool {
    &&& nodes_of(fg.nodes, pg.packages)
    &&& edges_as_built(fg.edges, fg.labels, built_of(pg).edges)
    &&& fg.warnings == built_of(pg).warnings
}

/// Whether what was found for a package graph is in order: the edges join
/// nodes that are there, and an edge leads from each feature to its
/// package.
pub open spec fn built_in_order(pg: PackageGraphView) -> bool {
    &&& crate::graph::feature::construct::edges_fit(built_of(pg).edges, node_total(pg.packages))
    &&& forall|p: int, f: int|
        0 <= p < pg.packages.len() && 0 <= f < pg.packages[p].features.len() ==> built_of(
            pg,
        ).edges.contains(#[trigger] to_base_edge(pg.packages, p, f))
}

/// Whether a package graph has a feature graph that can be counted.
pub open spec fn feature_graph_fits(pg: PackageGraphView) -> bool {
    node_total(pg.packages) <= u32::MAX && built_of(pg).edges.len() <= u32::MAX
}

/// A graph of the packages of a package graph and their features.
pub struct FeatureGraph<'g> {
    package_graph: &'g PackageGraph,
    // The shape of the graph. An edge carries the index of its label.
    graph: Graph<(), usize, Directed, u32>,
    labels: Vec<FeatureEdge>,
    nodes: Vec<FeatureNode>,
    // The base node of each package.
    layout: Vec<usize>,
    warnings: Vec<FeatureGraphWarning>,
}

impl<'g> View for FeatureGraph<'g> {
    type V = FeatureGraphView;

    closed spec fn view(&self) -> FeatureGraphView {
        FeatureGraphView {
            nodes: self.nodes@,
            edges: edges_of(self.graph),
            labels: labels_view(self.labels@),
            warnings: warnings_view(self.warnings@),
        }
    }
}

impl<'g> FeatureGraph<'g> {
    /// The package graph that this is the feature graph of.
    pub closed spec fn package_graph(&self) -> &PackageGraph {
        self.package_graph
    }

    /// Whether the tables of the graph are in order.
    pub closed spec fn rep_ok(&self) -> bool {
        &&& layout_of(self.layout@, self.package_graph@.packages)
        &&& node_count_of(self.graph) == self.nodes.len()
    }

    /// Whether this is the feature graph of a well-formed package graph.
    pub open spec fn wf(&self) -> bool {
        &&& self.package_graph().wf()
        &&& self.rep_ok()
        &&& feature_graph_of(self@, self.package_graph()@)
        &&& built_in_order(self.package_graph()@)
        &&& feature_graph_fits(self.package_graph()@)
    }

    /// Builds the feature graph of a package graph. Fails where the graph
    /// would have more nodes or edges than can be counted.
    #[verifier::loop_isolation(false)]
    pub fn new(package_graph: &'g PackageGraph) -> (r: Result<FeatureGraph<'g>, Error>)
        requires
            package_graph.wf(),
        ensures
            match r {
                Ok(fg) => fg.wf() && fg.package_graph() == package_graph && feature_graph_fits(
                    package_graph@,
                ),
                Err(e) => !feature_graph_fits(package_graph@) && e@
                    == ErrorView::PackageGraphInternalError,
            },
    {
        let ghost pg = package_graph@;
        let ghost packages = pg.packages;
        let layout = match compute_layout(package_graph) {
            Some(layout) => layout,
            None => {
                return Err(
                    Error::PackageGraphInternalError("too many features for one graph".to_owned()),
                );
            },
        };
        let em = emit(package_graph, &layout);
        if em.ends.len() > 0xffff_ffff {
            return Err(
                Error::PackageGraphInternalError(
                    "too many feature dependencies for one graph".to_owned(),
                ),
            );
        }
        // The nodes.
        let n = package_graph.packages().len();
        let mut nodes: Vec<FeatureNode> = Vec::new();
        let mut p: usize = 0;
        while p < n
            invariant
                p <= n,
                n == packages.len(),
                nodes.len() == base_node(packages, p as int),
                forall|q: int|
                    0 <= q < p ==> nodes[#[trigger] base_node(packages, q)] == (FeatureNode {
                        package_ix: q as usize,
                        feature_idx: None,
                    }),
                forall|q: int, f: int|
                    0 <= q < p && 0 <= f < packages[q].features.len() ==> nodes[#[trigger] feature_node(
                        packages,
                        q,
                        f,
                    )] == (FeatureNode { package_ix: q as usize, feature_idx: Some(f as usize) }),
            decreases n - p,
        {
            let nf = package_graph.package_at(p).feature_count();
            proof {
                assert forall|q: int| 0 <= q < p implies base_node(packages, q) < base_node(
                    packages,
                    p as int,
                ) by {
                    lemma_base_node_rises(packages, q, p as int);
                }
                assert forall|q: int, f: int|
                    0 <= q < p && 0 <= f < packages[q].features.len() implies feature_node(
                    packages,
                    q,
                    f,
                ) < base_node(packages, p as int) by {
                    lemma_base_node_rises(packages, q, p as int);
                }
            }
            let ghost before = nodes@;
            nodes.push(FeatureNode { package_ix: p, feature_idx: None });
            proof {
                assert forall|q: int| 0 <= q < p implies nodes[#[trigger] base_node(packages, q)] == (
                FeatureNode { package_ix: q as usize, feature_idx: None }) by {
                    lemma_base_node_rises(packages, q, p as int);
                    assert(nodes[base_node(packages, q)] == before[base_node(packages, q)]);
                }
                assert forall|q: int, h: int|
                    0 <= q < p && 0 <= h < packages[q].features.len() implies nodes[#[trigger] feature_node(
                    packages,
                    q,
                    h,
                )] == (FeatureNode { package_ix: q as usize, feature_idx: Some(h as usize) }) by {
                    lemma_base_node_rises(packages, q, p as int);
                    assert(nodes[feature_node(packages, q, h)] == before[feature_node(packages, q, h)]);
                }
            }
            let mut f: usize = 0;
            while f < nf
                invariant
                    f <= nf,
                    nf == packages[p as int].features.len(),
                    nodes.len() == base_node(packages, p as int) + 1 + f,
                    nodes[base_node(packages, p as int)] == (FeatureNode {
                        package_ix: p,
                        feature_idx: None,
                    }),
                    forall|q: int|
                        0 <= q < p ==> nodes[#[trigger] base_node(packages, q)] == (FeatureNode {
                            package_ix: q as usize,
                            feature_idx: None,
                        }),
                    forall|q: int, h: int|
                        0 <= q < p && 0 <= h < packages[q].features.len() ==> nodes[#[trigger] feature_node(
                            packages,
                            q,
                            h,
                        )] == (FeatureNode { package_ix: q as usize, feature_idx: Some(h as usize) }),
                    forall|h: int|
                        0 <= h < f ==> nodes[#[trigger] feature_node(packages, p as int, h)] == (
                        FeatureNode { package_ix: p, feature_idx: Some(h as usize) }),
                decreases nf - f,
            {
                let ghost inner = nodes@;
                nodes.push(FeatureNode { package_ix: p, feature_idx: Some(f) });
                proof {
                    assert forall|q: int| 0 <= q < p implies nodes[#[trigger] base_node(packages, q)]
                        == (FeatureNode { package_ix: q as usize, feature_idx: None }) by {
                        lemma_base_node_rises(packages, q, p as int);
                        assert(nodes[base_node(packages, q)] == inner[base_node(packages, q)]);
                    }
                    assert forall|q: int, h: int|
                        0 <= q < p && 0 <= h < packages[q].features.len() implies nodes[#[trigger] feature_node(
                        packages,
                        q,
                        h,
                    )] == (FeatureNode { package_ix: q as usize, feature_idx: Some(h as usize) }) by {
                        lemma_base_node_rises(packages, q, p as int);
                        assert(nodes[feature_node(packages, q, h)] == inner[feature_node(
                            packages,
                            q,
                            h,
                        )]);
                    }
                    assert forall|h: int| 0 <= h < f + 1 implies nodes[#[trigger] feature_node(
                        packages,
                        p as int,
                        h,
                    )] == (FeatureNode { package_ix: p, feature_idx: Some(h as usize) }) by {
                        if h < f {
                            assert(nodes[feature_node(packages, p as int, h)] == inner[feature_node(
                                packages,
                                p as int,
                                h,
                            )]);
                        }
                    }
                }
                f = f + 1;
            }
            p = p + 1;
        }
        // The edges.
        let ghost built = built_of(pg).edges;
        let mut graph = graph_with_nodes(em.total);
        let mut k: usize = 0;
        while k < em.ends.len()
            invariant
                k <= em.ends.len(),
                node_count_of(graph) == em.total,
                edges_of(graph).len() == k,
                forall|j: int|
                    0 <= j < k ==> (#[trigger] edges_of(graph)[j]) == (built[j].0, built[j].1, j as usize),
            decreases em.ends.len() - k,
        {
            assert(built[k as int].0 == em.ends[k as int].0 && built[k as int].1
                == em.ends[k as int].1);
            graph_add_edge(&mut graph, em.ends[k].0, em.ends[k].1, k);
            k = k + 1;
        }
        let Emitted { total, ends, labels, warnings } = em;
        let fg = FeatureGraph { package_graph, graph, labels, nodes, layout, warnings };
        proof {
            assert(labels_view(fg.labels@) =~= Seq::new(built.len(), |i: int| built[i].2));
            assert forall|j: int| 0 <= j < built.len() implies (#[trigger] fg@.edges[j]) == (
                built[j].0,
                built[j].1,
                j as usize,
            ) && fg@.labels[j] == built[j].2 by {}
        }
        Ok(fg)
    }

    /// The package graph that this is the feature graph of.
    pub fn packages(&self) -> (r: &'g PackageGraph)
        ensures
            r == self.package_graph(),
    {
        self.package_graph
    }

    /// Returns the total number of (package ID, feature) combinations in this graph.
    ///
    /// Includes the "base" feature for each package.
    pub fn feature_count(&self) -> (r: usize)
        ensures
            r == self@.nodes.len(),
    {
        self.nodes.len()
    }

    /// Returns the number of links in this graph.
    pub fn link_count(&self) -> (r: usize)
        ensures
            r == self@.edges.len(),
    {
        graph_edge_count(&self.graph)
    }

    /// Returns the warnings of the construction of this graph.
    pub fn warnings(&self) -> (r: &Vec<FeatureGraphWarning>)
        ensures
            warnings_view(r@) == self@.warnings,
    {
        &self.warnings
    }

    /// The node at an index.
    pub fn node(&self, ix: usize) -> (r: FeatureNode)
        requires
            ix < self@.nodes.len(),
        ensures
            r == self@.nodes[ix as int],
    {
        self.nodes[ix]
    }

    /// What the edge with the label at an index stands for.
    pub fn label(&self, w: usize) -> (r: &FeatureEdge)
        requires
            w < self@.labels.len(),
        ensures
            r@ == self@.labels[w as int],
    {
        &self.labels[w]
    }

    /// The number of labels of edges.
    pub fn label_count(&self) -> (r: usize)
        ensures
            r == self@.labels.len(),
    {
        self.labels.len()
    }

    /// The index of the base node of a package.
    pub fn base_ix(&self, package_ix: usize) -> (r: usize)
        requires
            self.wf(),
            package_ix < self.package_graph()@.packages.len(),
        ensures
            r == base_node(self.package_graph()@.packages, package_ix as int),
            r < self@.nodes.len(),
    {
        proof {
            lemma_base_node_fits(self.package_graph@.packages, package_ix as int);
        }
        self.layout[package_ix]
    }

    /// The index of the node of a feature of a package.
    pub fn feature_ix(&self, package_ix: usize, feature_idx: usize) -> (r: usize)
        requires
            self.wf(),
            package_ix < self.package_graph()@.packages.len(),
            feature_idx < self.package_graph()@.packages[package_ix as int].features.len(),
        ensures
            r == feature_node(
                self.package_graph()@.packages,
                package_ix as int,
                feature_idx as int,
            ),
            r < self@.nodes.len(),
    {
        proof {
            lemma_feature_node_fits(
                self.package_graph@.packages,
                package_ix as int,
                feature_idx as int,
            );
        }
        self.layout[package_ix] + 1 + feature_idx
    }

    /// Marks the nodes that walks along enabled edges reach from the
    /// seeds. An edge is enabled when the flag of its label is set in
    /// `enabled`.
    pub fn reach(&self, seeds: &Vec<usize>, enabled: &Vec<bool>, direction: DependencyDirection) -> (marks:
        Vec<bool>)
        requires
            self.wf(),
            forall|k: int| 0 <= k < seeds.len() ==> (#[trigger] seeds[k]) < self@.nodes.len(),
        ensures
            marks.len() == self@.nodes.len(),
            forall|v: int|
                0 <= v < marks.len() ==> (marks[v] <==> crate::reach::reached(
                    self@.edges,
                    enabled@,
                    direction,
                    seeds@,
                    v,
                )),
    {
        proof {
            assert forall|e: int| 0 <= e < self@.edges.len() implies (#[trigger] self@.edges[e]).0
                < self@.nodes.len() && self@.edges[e].1 < self@.nodes.len() by {
                self.lemma_edges_in_range(e);
            }
        }
        crate::reach::reach(&self.graph, seeds, enabled, direction)
    }

    /// The strongly connected components of the graph, as lists of nodes.
    pub fn sccs(&self) -> (r: Vec<Vec<usize>>)
        requires
            self.wf(),
        ensures
            components_of(self@.nodes.len(), self@.edges, r@),
    {
        graph_sccs(&self.graph)
    }

    /// The edges of the graph join nodes of it.
    pub proof fn lemma_edges_in_range(&self, e: int)
        requires
            self.wf(),
            0 <= e < self@.edges.len(),
        ensures
            self@.edges[e].0 < self@.nodes.len(),
            self@.edges[e].1 < self@.nodes.len(),
            self@.edges[e].2 == e,
    {
        let built = built_of(self.package_graph()@).edges;
        assert(built[e].0 < node_total(self.package_graph()@.packages));
    }

    /// In the feature graph of a well-formed package graph, an edge leads
    /// from every feature of a package to the package itself: who turns
    /// the feature on uses the package.
    pub proof fn lemma_features_lead_to_base(&self, p: int, f: int)
        requires
            self.wf(),
            0 <= p < self.package_graph()@.packages.len(),
            0 <= f < self.package_graph()@.packages[p].features.len(),
        ensures
            exists|e: int|
                0 <= e < self@.edges.len() && (#[trigger] self@.edges[e]).0 == feature_node(
                    self.package_graph()@.packages,
                    p,
                    f,
                ) && self@.edges[e].1 == base_node(self.package_graph()@.packages, p)
                    && self@.labels[self@.edges[e].2 as int] == FeatureEdgeView::FeatureToBase,
    {
        let pg = self.package_graph()@;
        let built = built_of(pg).edges;
        let x = to_base_edge(pg.packages, p, f);
        let k = choose|k: int| 0 <= k < built.len() && built[k] == x;
        lemma_feature_node_fits(pg.packages, p, f);
        assert(self@.edges[k] == (built[k].0, built[k].1, k as usize));
    }
}

} // verus!
