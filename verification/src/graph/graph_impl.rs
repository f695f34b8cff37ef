//! The package graph and what it is made of.

use crate::graph::dependency::{
    opt_string_view, strings_view, DependencyEdge, DependencyEdgeView, DependencyMetadataView,
};
use crate::graph::ingest::{
    edge_accepts_version, feature_entries, features_of, has_feature, FeatureEntry,
};
use crate::graph::workspace::{sorted_by_path, Workspace, WorkspaceView};
use crate::indexmap_support::{distinct_names, names_get, names_index_of, names_len, names_of};
use crate::metadata::{DependencyKind, Package, PackageId};
use crate::errors::Error;
use crate::petgraph_support::{is_walk, lemma_acyclic_has_no_closed_walk};
use crate::petgraph_support::{
    dfs_space_new, distinct_weights, edges_in_range, edges_of, flag_set, graph_edge,
    graph_edge_count, graph_edges_directed, graph_has_path, graph_node_count,
    graph_retain_edges, graph_sccs, is_acyclic, is_topological_order,
    lemma_topological_for_part, listed, node_count_of, reachable, DependencyDirection, Edge,
};
use crate::semver_support::{cargo_version_matches, version_matches};
use fixedbitset::FixedBitSet;
use petgraph::algo::DfsSpace;
use petgraph::graph::NodeIndex;
use indexmap::IndexSet;
use petgraph::graph::Graph;
use petgraph::Directed;
use std::collections::hash_map::RandomState;
use vstd::prelude::*;

verus! {

/// Information about a specific package in a `PackageGraph`.
///
/// Most of the metadata is extracted from `Cargo.toml` files.
#[derive(Debug)]
pub struct PackageMetadata {
    // What the metadata says of the package.
    pub(crate) package: Package,
    // The names of the features, and what each enables: something for a
    // named feature, nothing for an optional dependency.
    pub(crate) feature_names: IndexSet<String, RandomState>,
    pub(crate) feature_deps: Vec<Option<Vec<String>>>,
    // Other information.
    pub(crate) package_ix: usize,
    pub(crate) workspace_path: Option<String>,
    pub(crate) has_default_feature: bool,
}

/// The model of a [`PackageMetadata`].
pub struct PackageMetadataView {
    /// What the metadata says of the package.
    pub package: Package,
    /// The features of the package, in the order of their indices.
    pub features: Seq<FeatureEntry>,
    /// The index of the package in its graph.
    pub package_ix: usize,
    /// The path of the package in the workspace, if it is a member.
    pub workspace_path: Option<Seq<char>>,
    /// Whether the package has a named feature `default`.
    pub has_default_feature: bool,
}

/// Whether a package declares a named feature `default`.
pub open spec fn declares_default(pkg: Package) -> bool {
    exists|i: int| 0 <= i < pkg.features.len() && (#[trigger] pkg.features[i]).0@ == "default"@
}

impl PackageMetadataView {
    /// Whether the features are those of the declared package.
    pub open spec fn wf(self) -> bool {
        &&& self.features == features_of(self.package)
        &&& self.has_default_feature == declares_default(self.package)
        &&& forall|i: int, j: int|
            0 <= i < self.features.len() && 0 <= j < self.features.len() && i != j ==> (
            #[trigger] self.features[i]).0 != (#[trigger] self.features[j]).0
    }
}

impl View for PackageMetadata {
    type V = PackageMetadataView;

    closed spec fn view(&self) -> PackageMetadataView {
        PackageMetadataView {
            package: self.package,
            features: feature_entries(names_of(self.feature_names), self.feature_deps@),
            package_ix: self.package_ix,
            workspace_path: opt_string_view(self.workspace_path),
            has_default_feature: self.has_default_feature,
        }
    }
}

impl PackageMetadata {
    /// Whether the table of features is in order.
    pub closed spec fn rep_ok(&self) -> bool {
        &&& names_of(self.feature_names).len() == self.feature_deps.len()
        &&& distinct_names(names_of(self.feature_names))
    }

    /// The information about a package of the metadata, at the given index
    /// of its graph and the given path in the workspace.
    pub(crate) fn new(package: Package, package_ix: usize, workspace_path: Option<String>) -> (r: Self)
        ensures
            r.rep_ok(),
            r@.wf(),
            r@.package == package,
            r@.package_ix == package_ix,
            r@.workspace_path == opt_string_view(workspace_path),
    {
        let (feature_names, feature_deps) = crate::graph::ingest::build_features(&package);
        let mut has_default_feature = false;
        let mut i: usize = 0;
        while i < package.features.len()
            invariant
                i <= package.features.len(),
                has_default_feature <==> exists|k: int|
                    0 <= k < i && (#[trigger] package.features[k]).0@ == "default"@,
            decreases package.features.len() - i,
        {
            if crate::text::str_eq(package.features[i].0.as_str(), "default") {
                has_default_feature = true;
            }
            i = i + 1;
        }
        let r = PackageMetadata {
            package,
            feature_names,
            feature_deps,
            package_ix,
            workspace_path,
            has_default_feature,
        };
        proof {
            let names = names_of(r.feature_names);
            assert forall|i: int, j: int|
                0 <= i < r@.features.len() && 0 <= j < r@.features.len() && i != j implies (
            #[trigger] r@.features[i]).0 != (#[trigger] r@.features[j]).0 by {
                assert(names[i] != names[j]);
            }
        }
        r
    }

    /// What the metadata says of this package.
    pub fn package(&self) -> (r: &Package)
        ensures
            *r == self@.package,
    {
        &self.package
    }

    /// Returns the unique identifier for this package.
    pub fn id(&self) -> (r: &PackageId)
        ensures
            *r == self@.package.id,
    {
        &self.package.id
    }

    /// Returns the name of this package.
    ///
    /// This is the same as the `name` field of `Cargo.toml`.
    pub fn name(&self) -> (r: &str)
        ensures
            r@ == self@.package.name@,
    {
        self.package.name.as_str()
    }

    /// Returns the version of this package as resolved by Cargo.
    ///
    /// This is the same as the `version` field of `Cargo.toml`.
    pub fn version(&self) -> (r: &str)
        ensures
            r@ == self@.package.version@,
    {
        self.package.version.as_str()
    }

    /// Returns the authors of this package.
    ///
    /// This is the same as the `authors` field of `Cargo.toml`.
    pub fn authors(&self) -> (r: &Vec<String>)
        ensures
            *r == self@.package.authors,
    {
        &self.package.authors
    }

    /// Returns a short description for this package.
    ///
    /// This is the same as the `description` field of `Cargo.toml`.
    pub fn description(&self) -> (r: Option<&str>)
        ensures
            opt_str_view(r) == opt_string_view(self@.package.description),
    {
        opt_str(&self.package.description)
    }

    /// Returns an SPDX 2.1 license expression for this package, if specified.
    ///
    /// This is the same as the `license` field of `Cargo.toml`.
    pub fn license(&self) -> (r: Option<&str>)
        ensures
            opt_str_view(r) == opt_string_view(self@.package.license),
    {
        opt_str(&self.package.license)
    }

    /// Returns the path to a license file for this package, if specified.
    ///
    /// This is the same as the `license_file` field of `Cargo.toml`.
    pub fn license_file(&self) -> (r: Option<&str>)
        ensures
            opt_str_view(r) == opt_string_view(self@.package.license_file),
    {
        opt_str(&self.package.license_file)
    }

    /// Returns the full path to the `Cargo.toml` for this package.
    pub fn manifest_path(&self) -> (r: &str)
        ensures
            r@ == self@.package.manifest_path@,
    {
        self.package.manifest_path.as_str()
    }

    /// Returns categories for this package.
    ///
    /// This is the same as the `categories` field of `Cargo.toml`.
    pub fn categories(&self) -> (r: &Vec<String>)
        ensures
            *r == self@.package.categories,
    {
        &self.package.categories
    }

    /// Returns keywords for this package.
    ///
    /// This is the same as the `keywords` field of `Cargo.toml`.
    pub fn keywords(&self) -> (r: &Vec<String>)
        ensures
            *r == self@.package.keywords,
    {
        &self.package.keywords
    }

    /// Returns a path to the README for this package, if specified.
    ///
    /// This is the same as the `readme` field of `Cargo.toml`.
    pub fn readme(&self) -> (r: Option<&str>)
        ensures
            opt_str_view(r) == opt_string_view(self@.package.readme),
    {
        opt_str(&self.package.readme)
    }

    /// Returns the source code repository for this package, if specified.
    ///
    /// This is the same as the `repository` field of `Cargo.toml`.
    pub fn repository(&self) -> (r: Option<&str>)
        ensures
            opt_str_view(r) == opt_string_view(self@.package.repository),
    {
        opt_str(&self.package.repository)
    }

    /// Returns the Rust edition this package is written against.
    ///
    /// This is the same as the `edition` field of `Cargo.toml`.
    pub fn edition(&self) -> (r: &str)
        ensures
            r@ == self@.package.edition@,
    {
        self.package.edition.as_str()
    }

    /// Returns the freeform metadata table for this package, as JSON text.
    ///
    /// This is the same as the `package.metadata` section of `Cargo.toml`.
    pub fn metadata_table(&self) -> (r: &str)
        ensures
            r@ == self@.package.metadata@,
    {
        self.package.metadata.as_str()
    }

    /// Returns the name of a native library this package links to, if specified.
    ///
    /// This is the same as the `links` field of `Cargo.toml`.
    pub fn links(&self) -> (r: Option<&str>)
        ensures
            opt_str_view(r) == opt_string_view(self@.package.links),
    {
        opt_str(&self.package.links)
    }

    /// Returns the list of registries to which this package may be published.
    ///
    /// Returns `None` if publishing is unrestricted, and an empty list if
    /// publishing is forbidden.
    pub fn publish(&self) -> (r: Option<&Vec<String>>)
        ensures
            match r {
                Some(list) => self@.package.publish == Some(*list),
                None => self@.package.publish is None,
            },
    {
        self.package.publish.as_ref()
    }

    /// Returns true if this package is in the workspace.
    pub fn in_workspace(&self) -> (r: bool)
        ensures
            r == self@.workspace_path is Some,
    {
        self.workspace_path.is_some()
    }

    /// Returns the relative path to this package in the workspace, or `None` if this package is
    /// not in the workspace.
    pub fn workspace_path(&self) -> (r: Option<&str>)
        ensures
            opt_str_view(r) == self@.workspace_path,
    {
        opt_str(&self.workspace_path)
    }

    /// Returns true if this package has a named feature named `default`.
    pub fn has_default_feature(&self) -> (r: bool)
        ensures
            r == self@.has_default_feature,
    {
        self.has_default_feature
    }

    /// The index of this package in its graph.
    pub fn package_ix(&self) -> (r: usize)
        ensures
            r == self@.package_ix,
    {
        self.package_ix
    }

    /// The number of features of this package: named features and
    /// optional dependencies.
    pub fn feature_count(&self) -> (r: usize)
        requires
            self.rep_ok(),
        ensures
            r == self@.features.len(),
    {
        names_len(&self.feature_names)
    }

    /// The index of the feature of the given name.
    pub fn get_feature_idx(&self, feature: &str) -> (r: Option<usize>)
        requires
            self.rep_ok(),
        ensures
            match r {
                Some(i) => i < self@.features.len() && self@.features[i as int].0 == feature@,
                None => !has_feature(self@.features, feature@),
            },
    {
        let r = names_index_of(&self.feature_names, feature);
        proof {
            if r is None {
                if has_feature(self@.features, feature@) {
                    let i = choose|i: int|
                        0 <= i < self@.features.len() && (#[trigger] self@.features[i]).0
                            == feature@;
                    assert(names_of(self.feature_names)[i] == feature@);
                }
            }
        }
        r
    }

    /// The name of the feature at an index.
    pub fn feature_name(&self, idx: usize) -> (r: &str)
        requires
            self.rep_ok(),
            idx < self@.features.len(),
        ensures
            r@ == self@.features[idx as int].0,
    {
        names_get(&self.feature_names, idx).as_str()
    }

    /// What the feature at an index enables: for a named feature the
    /// features that it lists, for an optional dependency nothing.
    pub fn feature_deps(&self, idx: usize) -> (r: Option<&Vec<String>>)
        requires
            self.rep_ok(),
            idx < self@.features.len(),
        ensures
            match r {
                Some(deps) => self@.features[idx as int].1 == Some(strings_view(deps@)),
                None => self@.features[idx as int].1 is None,
            },
    {
        self.feature_deps[idx].as_ref()
    }

    /// Returns the list of named features available for this package. This will include a feature
    /// named "default" if it is defined.
    pub fn named_features(&self) -> (r: Vec<&str>)
        requires
            self.rep_ok(),
        ensures
            is_subsequence_of_named(r@, self@.features, self@.features.len() as int),
    {
        let n = names_len(&self.feature_names);
        let mut out: Vec<&str> = Vec::new();
        let mut i: usize = 0;
        assert(strs_view(out@) =~= named_among(self@.features, 0));
        while i < n
            invariant
                i <= n,
                n == self@.features.len(),
                self.rep_ok(),
                is_subsequence_of_named(out@, self@.features, i as int),
            decreases n - i,
        {
            if self.feature_deps[i].is_some() {
                let ghost before = out@;
                out.push(names_get(&self.feature_names, i).as_str());
                assert(strs_view(out@) =~= strs_view(before).push(self@.features[i as int].0));
            }
            i = i + 1;
        }
        out
    }
}

/// The names of the named features among the first `n` entries, in order.
pub open spec fn named_among(features: Seq<FeatureEntry>, n: int) -> Seq<Seq<char>>
    decreases n,
{
    if n <= 0 {
        Seq::empty()
    } else if features[n - 1].1 is Some {
        named_among(features, n - 1).push(features[n - 1].0)
    } else {
        named_among(features, n - 1)
    }
}

/// Whether `names` are the names of the named features among the first
/// `n` entries, in order.
pub open spec fn is_subsequence_of_named(names: Seq<&str>, features: Seq<FeatureEntry>, n: int) -> bool {
    strs_view(names) == named_among(features, n)
}

/// The models of a sequence of string slices.
pub open spec fn strs_view(names: Seq<&str>) -> Seq<Seq<char>> {
    Seq::new(names.len(), |i: int| names[i]@)
}

/// The model of a string slice that may not be there.
pub open spec fn opt_str_view(s: Option<&str>) -> Option<Seq<char>> {
    match s {
        Some(s) => Some(s@),
        None => None,
    }
}

/// A string that may not be there, as a slice.
pub fn opt_str(s: &Option<String>) -> (r: Option<&str>)
    ensures
        opt_str_view(r) == opt_string_view(*s),
{
    match s {
        Some(s) => Some(s.as_str()),
        None => None,
    }
}

/// Whether an edge is not there for tests alone, by the details of its
/// weight.
pub open spec fn in_build(links: Seq<DependencyEdgeView>) -> spec_fn(Edge) -> bool {
    |edge: Edge| 0 <= edge.2 < links.len() && !links[edge.2 as int].dev_only()
}

/// A filter that keeps every edge changes nothing.
pub proof fn lemma_filter_keeps_all(edges: Seq<Edge>, keep: spec_fn(Edge) -> bool)
    requires
        forall|e: int| 0 <= e < edges.len() ==> keep(#[trigger] edges[e]),
    ensures
        edges.filter(keep) == edges,
    decreases edges.len(),
{
    reveal(Seq::filter);
    if edges.len() > 0 {
        lemma_filter_keeps_all(edges.drop_last(), keep);
        assert(edges.drop_last().push(edges.last()) =~= edges);
    }
}

/// Whether the details of some kind of an edge hold an optional
/// declaration.
pub open spec fn edge_has_optional(link: DependencyEdgeView) -> bool {
    ||| link.normal matches Some(m) && m.dependency_req.optional.target_features.len() > 0
    ||| link.build matches Some(m) && m.dependency_req.optional.target_features.len() > 0
    ||| link.dev matches Some(m) && m.dependency_req.optional.target_features.len() > 0
}

/// Per-package data for a PackageGraph instance.
#[derive(Debug)]
pub struct PackageGraphData {
    pub(crate) packages: Vec<PackageMetadata>,
    pub(crate) workspace: Workspace,
}

/// The models of a sequence of packages.
pub open spec fn packages_view(v: Seq<PackageMetadata>) -> Seq<PackageMetadataView> {
    Seq::new(v.len(), |i: int| v[i]@)
}

/// The models of a sequence of edge details.
pub open spec fn links_view(v: Seq<DependencyEdge>) -> Seq<DependencyEdgeView> {
    Seq::new(v.len(), |i: int| v[i]@)
}

/// A graph of packages and dependencies between them, parsed from metadata returned by `cargo
/// metadata`.
#[derive(Debug)]
pub struct PackageGraph {
    // The shape of the graph. An edge carries the index of its details.
    pub(crate) dep_graph: Graph<(), usize, Directed, u32>,
    pub(crate) links: Vec<DependencyEdge>,
    // The identifiers of the packages, by package index.
    pub(crate) ids: IndexSet<String, RandomState>,
    // The packages in an order in which each comes before what it needs
    // to be built.
    pub(crate) topo: Vec<usize>,
    pub(crate) data: PackageGraphData,
}

/// The model of a [`PackageGraph`].
pub struct PackageGraphView {
    /// The number of nodes of the graph.
    pub node_count: nat,
    /// The packages, by package index.
    pub packages: Seq<PackageMetadataView>,
    /// The edges, from a package to one that it depends on, each with the
    /// index of its details.
    pub edges: Seq<Edge>,
    /// The details of the edges.
    pub links: Seq<DependencyEdgeView>,
    /// The workspace.
    pub workspace: WorkspaceView,
    /// The packages in an order in which each comes before what it needs
    /// to be built.
    pub topo: Seq<usize>,
}

impl PackageGraphView {
    /// The packages are as many as the nodes; each knows its index and has
    /// the features that it declares; no identifier occurs twice.
    pub open spec fn packages_wf(self) -> bool {
        &&& self.node_count == self.packages.len()
        &&& forall|i: int|
            0 <= i < self.packages.len() ==> (#[trigger] self.packages[i]).package_ix == i
                && self.packages[i].wf()
        &&& forall|i: int, j: int|
            0 <= i < self.packages.len() && 0 <= j < self.packages.len() && i != j ==> (
            #[trigger] self.packages[i]).package.id@ != (#[trigger] self.packages[j]).package.id@
    }

    /// The edges join packages and have details; no two edges share their
    /// details or join the same packages in the same direction.
    pub open spec fn edges_wf(self) -> bool {
        &&& self.packages.len() <= u32::MAX
        &&& self.edges.len() <= u32::MAX
        &&& edges_in_range(self.edges, self.packages.len())
        &&& forall|e: int| 0 <= e < self.edges.len() ==> (#[trigger] self.edges[e]).2 < self.links.len()
        &&& distinct_weights(self.edges)
        &&& forall|e: int, f: int|
            0 <= e < self.edges.len() && 0 <= f < self.edges.len() && e != f ==> !((
            #[trigger] self.edges[e]).0 == (#[trigger] self.edges[f]).0 && self.edges[e].1
                == self.edges[f].1)
    }

    /// The details of an edge are of some kind; the version of the package
    /// that the edge leads to meets what each kind asks for; and where a
    /// declaration is optional, the package that has it has a feature of
    /// the dependency's name.
    pub open spec fn link_wf(self, edge: Edge) -> bool {
        let link = self.links[edge.2 as int];
        &&& link.has_kind()
        &&& edge_accepts_version(link, self.packages[edge.1 as int].package.version@)
        &&& edge_has_optional(link) ==> has_feature(
            self.packages[edge.0 as int].features,
            link.dep_name,
        )
    }

    pub open spec fn links_wf(self) -> bool {
        forall|e: int| 0 <= e < self.edges.len() ==> self.link_wf(#[trigger] self.edges[e])
    }

    /// Whether a member of the workspace is a package, with the member's
    /// path as its path in the workspace.
    pub open spec fn member_is_package(self, member: (Seq<char>, Seq<char>)) -> bool {
        exists|i: int|
            0 <= i < self.packages.len() && (#[trigger] self.packages[i]).package.id@ == member.1
                && self.packages[i].workspace_path == Some(member.0)
    }

    /// Whether a package with a path in the workspace is a member of it.
    pub open spec fn package_is_member(self, package: PackageMetadataView) -> bool {
        package.workspace_path is Some ==> self.workspace.members.contains(
            (package.workspace_path->0, package.package.id@),
        )
    }

    /// The members of the workspace come in the order of their paths; they
    /// are the packages that have a path in the workspace.
    pub open spec fn workspace_wf(self) -> bool {
        &&& sorted_by_path(self.workspace.members)
        &&& forall|k: int|
            0 <= k < self.workspace.members.len() ==> self.member_is_package(
                #[trigger] self.workspace.members[k],
            )
        &&& forall|i: int|
            0 <= i < self.packages.len() ==> self.package_is_member(#[trigger] self.packages[i])
    }

    /// The edges that are not there for tests alone.
    pub open spec fn build_edges(self) -> Seq<Edge> {
        self.edges.filter(in_build(self.links))
    }

    /// The order of the packages is topological for the edges that are not
    /// there for tests alone.
    pub open spec fn topo_wf(self) -> bool {
        is_topological_order(self.topo, self.packages.len(), self.build_edges())
    }

    /// Whether the graph is well-formed.
    pub open spec fn wf(self) -> bool {
        &&& self.packages_wf()
        &&& self.edges_wf()
        &&& self.links_wf()
        &&& self.workspace_wf()
        &&& self.topo_wf()
    }

    /// Whether the workspace has a member with the identifier.
    pub open spec fn is_member(self, id: Seq<char>) -> bool {
        exists|k: int|
            0 <= k < self.workspace.members.len() && (#[trigger] self.workspace.members[k]).1 == id
    }

    /// Whether the details of an edge are of some kind, and the version of
    /// the package that the edge leads to meets what each kind asks for.
    pub open spec fn link_in_order(self, edge: Edge) -> bool {
        &&& edge.0 < self.packages.len()
        &&& edge.1 < self.packages.len()
        &&& edge.2 < self.links.len()
        &&& self.links[edge.2 as int].has_kind()
        &&& edge_accepts_version(
            self.links[edge.2 as int],
            self.packages[edge.1 as int].package.version@,
        )
    }

    /// Whether a package has a path in the workspace if and only if it is
    /// a member of the workspace.
    pub open spec fn membership_agrees(self, package: PackageMetadataView) -> bool {
        package.workspace_path is Some <==> self.is_member(package.package.id@)
    }

    /// The invariants of a package graph: there is a node for each
    /// package, and no more nodes and edges than can be counted; every
    /// edge joins packages of the graph and has details of a normal, a
    /// build or a development dependency, and the version of the package
    /// at its end meets what each of them asks for; a package has a path
    /// in the workspace if and only if it is a member of it; and the edges
    /// that are not there for tests alone have no cycle.
    pub open spec fn invariants_hold(self) -> bool {
        &&& self.node_count == self.packages.len()
        &&& self.node_count <= u32::MAX
        &&& self.edges.len() <= u32::MAX
        &&& forall|e: int| 0 <= e < self.edges.len() ==> self.link_in_order(#[trigger] self.edges[e])
        &&& forall|i: int|
            0 <= i < self.packages.len() ==> self.membership_agrees(#[trigger] self.packages[i])
        &&& is_acyclic(self.packages.len(), self.build_edges())
    }

    /// The index of the package with the given identifier, if there is one.
    pub open spec fn index_of(self, id: Seq<char>) -> Option<int> {
        if exists|i: int| 0 <= i < self.packages.len() && (#[trigger] self.packages[i]).package.id@ == id {
            Some(
                choose|i: int|
                    0 <= i < self.packages.len() && (#[trigger] self.packages[i]).package.id@ == id,
            )
        } else {
            None
        }
    }
}

impl View for PackageGraphData {
    type V = (Seq<PackageMetadataView>, WorkspaceView);

    closed spec fn view(&self) -> (Seq<PackageMetadataView>, WorkspaceView) {
        (packages_view(self.packages@), self.workspace@)
    }
}

impl View for PackageGraph {
    type V = PackageGraphView;

    closed spec fn view(&self) -> PackageGraphView {
        PackageGraphView {
            node_count: node_count_of(self.dep_graph),
            packages: packages_view(self.data.packages@),
            edges: edges_of(self.dep_graph),
            links: links_view(self.links@),
            workspace: self.data.workspace@,
            topo: self.topo@,
        }
    }
}

impl PackageGraphData {
    /// Whether the tables are in order.
    pub closed spec fn rep_ok(&self) -> bool {
        forall|i: int| 0 <= i < self.packages.len() ==> (#[trigger] self.packages[i]).rep_ok()
    }

    /// Returns information about the workspace.
    pub fn workspace(&self) -> (r: &Workspace)
        ensures
            r@ == self@.1,
    {
        &self.workspace
    }

    /// Returns all the package IDs in this graph, by package index.
    pub fn package_ids(&self) -> (r: Vec<&PackageId>)
        ensures
            r.len() == self@.0.len(),
            forall|i: int| 0 <= i < r.len() ==> *(#[trigger] r[i]) == self@.0[i].package.id,
    {
        let mut ids: Vec<&PackageId> = Vec::new();
        let mut i: usize = 0;
        while i < self.packages.len()
            invariant
                i <= self.packages.len(),
                ids.len() == i,
                forall|k: int| 0 <= k < i ==> *(#[trigger] ids[k]) == self@.0[k].package.id,
            decreases self.packages.len() - i,
        {
            ids.push(&self.packages[i].package.id);
            i = i + 1;
        }
        ids
    }

    /// Returns all the packages in this graph, by package index.
    pub fn packages(&self) -> (r: &Vec<PackageMetadata>)
        ensures
            packages_view(r@) == self@.0,
    {
        &self.packages
    }

    /// Returns the metadata for the given package ID.
    pub fn metadata(&self, package_id: &PackageId) -> (r: Option<&PackageMetadata>)
        ensures
            match r {
                Some(m) => m@.package.id@ == package_id@ && self@.0.contains(m@),
                None => forall|i: int|
                    0 <= i < self@.0.len() ==> (#[trigger] self@.0[i]).package.id@ != package_id@,
            },
    {
        let mut i: usize = 0;
        while i < self.packages.len()
            invariant
                i <= self.packages.len(),
                forall|k: int| 0 <= k < i ==> (#[trigger] self@.0[k]).package.id@ != package_id@,
            decreases self.packages.len() - i,
        {
            if crate::text::str_eq(
                self.packages[i].package.id.repr.as_str(),
                package_id.repr.as_str(),
            ) {
                assert(self@.0[i as int] == self.packages[i as int]@);
                return Some(&self.packages[i]);
            }
            i = i + 1;
        }
        None
    }
}

impl PackageGraphData {
    /// Whether the table of identifiers goes with these packages.
    pub closed spec fn indexed_by(&self, ids: IndexSet<String, RandomState>) -> bool {
        &&& names_of(ids).len() == self.packages.len()
        &&& forall|i: int|
            0 <= i < self.packages.len() ==> (#[trigger] names_of(ids)[i])
                == self.packages[i].package.id@
    }

    /// The data of a graph: its packages and its workspace.
    pub(crate) fn new(
        packages: Vec<PackageMetadata>,
        workspace: Workspace,
        ids: &IndexSet<String, RandomState>,
    ) -> (r: PackageGraphData)
        requires
            forall|i: int| 0 <= i < packages.len() ==> (#[trigger] packages[i]).rep_ok(),
            names_of(*ids).len() == packages.len(),
            forall|i: int|
                0 <= i < packages.len() ==> (#[trigger] names_of(*ids)[i]) == packages[i]@.package.id@,
        ensures
            r.rep_ok(),
            r.indexed_by(*ids),
            r@ == (packages_view(packages@), workspace@),
    {
        PackageGraphData { packages, workspace }
    }
}

impl PackageGraph {
    /// The graph made of the given parts.
    pub(crate) fn from_parts(
        dep_graph: Graph<(), usize, Directed, u32>,
        links: Vec<DependencyEdge>,
        ids: IndexSet<String, RandomState>,
        topo: Vec<usize>,
        data: PackageGraphData,
    ) -> (r: PackageGraph)
        requires
            data.rep_ok(),
            data.indexed_by(ids),
            (PackageGraphView {
                node_count: node_count_of(dep_graph),
                packages: data@.0,
                edges: edges_of(dep_graph),
                links: links_view(links@),
                workspace: data@.1,
                topo: topo@,
            }).wf(),
        ensures
            r.wf(),
            r@ == (PackageGraphView {
                node_count: node_count_of(dep_graph),
                packages: data@.0,
                edges: edges_of(dep_graph),
                links: links_view(links@),
                workspace: data@.1,
                topo: topo@,
            }),
    {
        PackageGraph { dep_graph, links, ids, topo, data }
    }

    /// Whether the tables of the graph are in order.
    pub closed spec fn rep_ok(&self) -> bool {
        &&& self.data.rep_ok()
        &&& names_of(self.ids).len() == self.data.packages.len()
        &&& forall|i: int|
            0 <= i < self.data.packages.len() ==> (#[trigger] names_of(self.ids)[i])
                == self.data.packages[i].package.id@
    }

    /// Whether the graph is well-formed: every graph that is built from
    /// metadata is.
    pub open spec fn wf(&self) -> bool {
        self.rep_ok() && self@.wf()
    }

    /// Returns the data of this graph: its packages and its workspace.
    pub fn data(&self) -> (r: &PackageGraphData)
        ensures
            r@ == (self@.packages, self@.workspace),
            self.rep_ok() ==> r.rep_ok(),
    {
        &self.data
    }

    /// Returns information about the workspace.
    pub fn workspace(&self) -> (r: &Workspace)
        ensures
            r@ == self@.workspace,
    {
        self.data.workspace()
    }

    /// Returns all the package IDs in this graph, by package index.
    pub fn package_ids(&self) -> (r: Vec<&PackageId>)
        ensures
            r.len() == self@.packages.len(),
            forall|i: int| 0 <= i < r.len() ==> *(#[trigger] r[i]) == self@.packages[i].package.id,
    {
        self.data.package_ids()
    }

    /// Returns all the packages in this graph, by package index.
    pub fn packages(&self) -> (r: &Vec<PackageMetadata>)
        ensures
            packages_view(r@) == self@.packages,
    {
        self.data.packages()
    }

    /// Returns the number of packages in this graph.
    pub fn package_count(&self) -> (r: usize)
        ensures
            r == self@.node_count,
    {
        crate::petgraph_support::graph_node_count(&self.dep_graph)
    }

    /// Returns the number of links in this graph.
    pub fn link_count(&self) -> (r: usize)
        ensures
            r == self@.edges.len(),
    {
        crate::petgraph_support::graph_edge_count(&self.dep_graph)
    }

    /// Maps a package ID to its internal graph node index.
    pub fn package_ix(&self, package_id: &PackageId) -> (r: Option<usize>)
        requires
            self.wf(),
        ensures
            match r {
                Some(i) => i < self@.packages.len() && self@.packages[i as int].package.id@
                    == package_id@,
                None => forall|i: int|
                    0 <= i < self@.packages.len() ==> (#[trigger] self@.packages[i]).package.id@
                        != package_id@,
            },
    {
        let r = names_index_of(&self.ids, package_id.repr.as_str());
        proof {
            if r is None {
                assert forall|i: int| 0 <= i < self@.packages.len() implies (
                #[trigger] self@.packages[i]).package.id@ != package_id@ by {
                    assert(names_of(self.ids)[i] == self.data.packages[i].package.id@);
                }
            } else {
                assert(names_of(self.ids)[r->0 as int] == self.data.packages[r->0 as int].package.id@);
            }
        }
        r
    }

    /// Returns the metadata for the given package ID.
    pub fn metadata(&self, package_id: &PackageId) -> (r: Option<&PackageMetadata>)
        requires
            self.wf(),
        ensures
            match r {
                Some(m) => m@.package.id@ == package_id@ && m@.package_ix < self@.packages.len()
                    && self@.packages[m@.package_ix as int] == m@ && m.rep_ok(),
                None => forall|i: int|
                    0 <= i < self@.packages.len() ==> (#[trigger] self@.packages[i]).package.id@
                        != package_id@,
            },
    {
        match self.package_ix(package_id) {
            Some(i) => {
                assert(self@.packages[i as int] == self.data.packages[i as int]@);
                Some(&self.data.packages[i])
            },
            None => None,
        }
    }

    /// The package at an index.
    pub fn package_at(&self, ix: usize) -> (r: &PackageMetadata)
        requires
            self.wf(),
            ix < self@.packages.len(),
        ensures
            r@ == self@.packages[ix as int],
            r.rep_ok(),
    {
        &self.data.packages[ix]
    }
}

/// Represents a dependency from one package to another.
#[derive(Clone, Copy, Debug)]
pub struct DependencyLink<'g> {
    /// The backing data store of the graph that the link is of.
    pub data: &'g PackageGraphData,
    /// The package which depends on the `to` package.
    pub from: &'g PackageMetadata,
    /// The package which is depended on by the `from` package.
    pub to: &'g PackageMetadata,
    /// Information about the specifics of this dependency.
    pub edge: &'g DependencyEdge,
}

/// The model of a [`DependencyLink`].
pub struct DependencyLinkView {
    pub from: PackageMetadataView,
    pub to: PackageMetadataView,
    pub edge: DependencyEdgeView,
}

impl<'g> View for DependencyLink<'g> {
    type V = DependencyLinkView;

    open spec fn view(&self) -> DependencyLinkView {
        DependencyLinkView { from: self.from@, to: self.to@, edge: self.edge@ }
    }
}

impl<'g> DependencyLink<'g> {
    /// Returns the backing data store for this package graph.
    pub fn data(&self) -> (r: &'g PackageGraphData)
        ensures
            r == self.data,
    {
        self.data
    }

    /// Returns the package which depends on the `to` package.
    pub fn from(&self) -> (r: &'g PackageMetadata)
        ensures
            r == self.from,
    {
        self.from
    }

    /// Returns the package which is depended on by the `from` package.
    pub fn to(&self) -> (r: &'g PackageMetadata)
        ensures
            r == self.to,
    {
        self.to
    }

    /// Returns information about the specifics of this dependency.
    pub fn edge(&self) -> (r: &'g DependencyEdge)
        ensures
            r == self.edge,
    {
        self.edge
    }
}

/// The end of an edge that a walk in `direction` starts from.
pub open spec fn near_end(edge: Edge, direction: DependencyDirection) -> usize {
    if direction == DependencyDirection::Forward {
        edge.0
    } else {
        edge.1
    }
}

impl PackageGraphView {
    /// The link that an edge stands for.
    pub open spec fn link_at(self, edge: Edge) -> DependencyLinkView {
        DependencyLinkView {
            from: self.packages[edge.0 as int],
            to: self.packages[edge.1 as int],
            edge: self.links[edge.2 as int],
        }
    }

    /// Whether the links are those of the edges that start at the package
    /// `ix`, walking in `direction`: each of those edges once, and nothing
    /// else.
    pub open spec fn links_of(
        self,
        links: Seq<DependencyLinkView>,
        edges: Seq<Edge>,
        ix: usize,
        direction: DependencyDirection,
    ) -> bool {
        &&& links.len() == edges.len()
        &&& forall|k: int|
            0 <= k < edges.len() ==> {
                &&& self.edges.contains(#[trigger] edges[k])
                &&& near_end(edges[k], direction) == ix
                &&& links[k] == self.link_at(edges[k])
            }
        &&& forall|k: int, l: int|
            0 <= k < edges.len() && 0 <= l < edges.len() && k != l ==> (#[trigger] edges[k]) != (
            #[trigger] edges[l])
        &&& forall|e: int|
            0 <= e < self.edges.len() && near_end(#[trigger] self.edges[e], direction) == ix
                ==> edges.contains(self.edges[e])
    }

    /// Whether a package has the identifier.
    pub open spec fn knows(self, id: Seq<char>) -> bool {
        exists|i: int| 0 <= i < self.packages.len() && (#[trigger] self.packages[i]).package.id@ == id
    }
}

/// The models of a sequence of links.
pub open spec fn dependency_links_view(v: Seq<DependencyLink>) -> Seq<DependencyLinkView> {
    Seq::new(v.len(), |i: int| v[i]@)
}

impl PackageGraph {
    /// The edges that start at the package `ix`, walking in `direction`:
    /// each once, in an order that is left open.
    pub fn edges_directed(&self, ix: usize, direction: DependencyDirection) -> (r: Vec<Edge>)
        requires
            self.wf(),
            ix < self@.packages.len(),
        ensures
            forall|k: int|
                0 <= k < r.len() ==> self@.edges.contains(#[trigger] r[k]) && near_end(
                    r[k],
                    direction,
                ) == ix,
            forall|k: int, l: int|
                0 <= k < r.len() && 0 <= l < r.len() && k != l ==> (#[trigger] r[k]) != (
                #[trigger] r[l]),
            forall|e: int|
                0 <= e < self@.edges.len() && near_end(#[trigger] self@.edges[e], direction) == ix
                    ==> r@.contains(self@.edges[e]),
    {
        let found = graph_edges_directed(&self.dep_graph, ix, direction);
        let ghost edges = self@.edges;
        let mut out: Vec<Edge> = Vec::new();
        let mut i: usize = 0;
        while i < found.len()
            invariant
                i <= found.len(),
                out.len() == i,
                forall|k: int| 0 <= k < i ==> out[k] == (#[trigger] found[k]).1,
            decreases found.len() - i,
        {
            out.push(found[i].1);
            i = i + 1;
        }
        proof {
            assert forall|k: int| 0 <= k < out.len() implies edges.contains(#[trigger] out[k])
                && near_end(out[k], direction) == ix by {
                assert(edges[found[k].0 as int] == out[k]);
            }
            assert forall|k: int, l: int| 0 <= k < out.len() && 0 <= l < out.len() && k
                != l implies (#[trigger] out[k]) != (#[trigger] out[l]) by {
                assert(edges[found[k].0 as int] == out[k]);
                assert(edges[found[l].0 as int] == out[l]);
                assert(found[k].0 != found[l].0);
            }
            assert forall|e: int|
                0 <= e < edges.len() && near_end(#[trigger] edges[e], direction)
                    == ix implies out@.contains(edges[e]) by {
                let k = choose|k: int| 0 <= k < found.len() && (#[trigger] found[k]).0 == e;
                assert(out[k] == edges[e]);
            }
        }
        out
    }

    /// The link that an edge of the graph stands for.
    pub fn edge_to_link<'g>(&'g self, edge: Edge) -> (r: DependencyLink<'g>)
        requires
            self.wf(),
            self@.edges.contains(edge),
        ensures
            r@ == self@.link_at(edge),
            r.data == self.spec_data(),
            r.from.rep_ok(),
            r.to.rep_ok(),
    {
        proof {
            let e = choose|e: int| 0 <= e < self@.edges.len() && self@.edges[e] == edge;
            assert(self@.edges[e].2 < self@.links.len());
        }
        DependencyLink {
            data: &self.data,
            from: &self.data.packages[edge.0],
            to: &self.data.packages[edge.1],
            edge: &self.links[edge.2],
        }
    }

    /// The link that an edge of the graph stands for, as `spec_link` gives
    /// it.
    pub fn edge_to_link_exact<'g>(&'g self, edge: Edge) -> (r: DependencyLink<'g>)
        requires
            self.wf(),
            self@.edges.contains(edge),
        ensures
            r == self.spec_link(edge),
            r@ == self@.link_at(edge),
    {
        proof {
            let e = choose|e: int| 0 <= e < self@.edges.len() && self@.edges[e] == edge;
            assert(self@.edges[e].2 < self@.links.len());
        }
        DependencyLink {
            data: &self.data,
            from: &self.data.packages[edge.0],
            to: &self.data.packages[edge.1],
            edge: &self.links[edge.2],
        }
    }

    /// The links of the package at an index in the specified direction.
    pub(crate) fn dep_links_ixs_directed<'g>(&'g self, ix: usize, direction: DependencyDirection) -> (r: (
        Vec<DependencyLink<'g>>,
        Ghost<Seq<Edge>>,
    ))
        requires
            self.wf(),
            ix < self@.packages.len(),
        ensures
            self@.links_of(dependency_links_view(r.0@), r.1@, ix, direction),
    {
        let edges = self.edges_directed(ix, direction);
        let mut out: Vec<DependencyLink<'g>> = Vec::new();
        let mut i: usize = 0;
        while i < edges.len()
            invariant
                i <= edges.len(),
                self.wf(),
                forall|k: int| 0 <= k < edges.len() ==> self@.edges.contains(#[trigger] edges[k]),
                out.len() == i,
                forall|k: int| 0 <= k < i ==> (#[trigger] out[k])@ == self@.link_at(edges[k]),
            decreases edges.len() - i,
        {
            out.push(self.edge_to_link(edges[i]));
            i = i + 1;
        }
        (out, Ghost(edges@))
    }

    /// Returns the direct dependencies for the given package ID in the specified direction:
    /// none for an ID that is not known.
    pub fn dep_links_directed<'g>(
        &'g self,
        package_id: &PackageId,
        dep_direction: DependencyDirection,
    ) -> (r: Option<Vec<DependencyLink<'g>>>)
        requires
            self.wf(),
        ensures
            match r {
                Some(links) => exists|ix: usize, edges: Seq<Edge>|
                    ix < self@.packages.len() && self@.packages[ix as int].package.id@
                        == package_id@ && #[trigger] self@.links_of(
                        dependency_links_view(links@),
                        edges,
                        ix,
                        dep_direction,
                    ),
                None => !self@.knows(package_id@),
            },
    {
        match self.package_ix(package_id) {
            Some(ix) => {
                let (links, Ghost(edges)) = self.dep_links_ixs_directed(ix, dep_direction);
                assert(self@.links_of(dependency_links_view(links@), edges, ix, dep_direction));
                let r = Some(links);
                assert(r->0 == links);
                r
            },
            None => None,
        }
    }

    /// Returns the direct dependencies for the given package ID.
    pub fn dep_links<'g>(&'g self, package_id: &PackageId) -> (r: Option<Vec<DependencyLink<'g>>>)
        requires
            self.wf(),
        ensures
            match r {
                Some(links) => exists|ix: usize, edges: Seq<Edge>|
                    ix < self@.packages.len() && self@.packages[ix as int].package.id@
                        == package_id@ && #[trigger] self@.links_of(
                        dependency_links_view(links@),
                        edges,
                        ix,
                        DependencyDirection::Forward,
                    ),
                None => !self@.knows(package_id@),
            },
    {
        self.dep_links_directed(package_id, DependencyDirection::Forward)
    }

    /// Returns the direct reverse dependencies for the given package ID.
    pub fn reverse_dep_links<'g>(&'g self, package_id: &PackageId) -> (r: Option<
        Vec<DependencyLink<'g>>,
    >)
        requires
            self.wf(),
        ensures
            match r {
                Some(links) => exists|ix: usize, edges: Seq<Edge>|
                    ix < self@.packages.len() && self@.packages[ix as int].package.id@
                        == package_id@ && #[trigger] self@.links_of(
                        dependency_links_view(links@),
                        edges,
                        ix,
                        DependencyDirection::Reverse,
                    ),
                None => !self@.knows(package_id@),
            },
    {
        self.dep_links_directed(package_id, DependencyDirection::Reverse)
    }

    /// Creates a new cache for `depends_on` queries.
    ///
    /// The cache is optional but can speed up some queries.
    pub fn new_depends_cache<'g>(&'g self) -> (r: DependsCache<'g>)
        requires
            self.wf(),
        ensures
            r.wf(),
            r.graph() == self,
    {
        DependsCache::new(self)
    }

    /// Returns true if `package_a` depends (directly or indirectly) on `package_b`.
    ///
    /// In other words, this returns true if `package_b` is a (possibly transitive) dependency of
    /// `package_a`.
    ///
    /// For repeated queries, consider using `new_depends_cache` to speed up queries.
    pub fn depends_on(&self, package_a: &PackageId, package_b: &PackageId) -> (r: Result<
        bool,
        Error,
    >)
        requires
            self.wf(),
        ensures
            depends_on_result(self@, package_a@, package_b@, r),
    {
        let mut depends_cache = self.new_depends_cache();
        depends_cache.depends_on(package_a, package_b)
    }
}

/// What `depends_on` answers: an error for the first of the two
/// identifiers that is not known, and else whether a walk along the edges
/// leads from the first package to the second.
pub open spec fn depends_on_result(
    g: PackageGraphView,
    a: Seq<char>,
    b: Seq<char>,
    r: Result<bool, Error>,
) -> bool {
    if !g.knows(a) {
        r matches Err(e) && e@ == crate::errors::ErrorView::UnknownPackageId(a)
    } else if !g.knows(b) {
        r matches Err(e) && e@ == crate::errors::ErrorView::UnknownPackageId(b)
    } else {
        r matches Ok(answer) && exists|ia: int, ib: int|
            0 <= ia < g.packages.len() && 0 <= ib < g.packages.len() && (
            #[trigger] g.packages[ia]).package.id@ == a && (#[trigger] g.packages[ib]).package.id@
                == b && answer == reachable(g.edges, ia, ib)
    }
}

/// An optional cache used to speed up `depends_on` queries.
///
/// Created with `PackageGraph::new_depends_cache()`.
pub struct DependsCache<'g> {
    package_graph: &'g PackageGraph,
    dfs_space: DfsSpace<NodeIndex<u32>, FixedBitSet>,
}

impl<'g> DependsCache<'g> {
    /// The graph that the cache is for.
    pub closed spec fn graph(&self) -> &PackageGraph {
        self.package_graph
    }

    /// Whether the graph of the cache is well-formed.
    pub open spec fn wf(&self) -> bool {
        self.graph().wf()
    }

    /// Creates a new cache for `depends_on` queries for this package graph.
    ///
    /// This holds a shared reference to the package graph. This is to ensure that the cache is
    /// invalidated if the package graph is mutated.
    pub fn new(package_graph: &'g PackageGraph) -> (r: Self)
        requires
            package_graph.wf(),
        ensures
            r.wf(),
            r.graph() == package_graph,
    {
        Self { package_graph, dfs_space: dfs_space_new(&package_graph.dep_graph) }
    }

    /// Returns true if the package at the index `a` depends (directly or
    /// indirectly) on the package at the index `b`.
    pub fn depends_on_ix(&mut self, a: usize, b: usize) -> (r: bool)
        requires
            old(self).wf(),
            a < old(self).graph()@.packages.len(),
            b < old(self).graph()@.packages.len(),
        ensures
            final(self).wf(),
            final(self).graph() == old(self).graph(),
            r == reachable(old(self).graph()@.edges, a as int, b as int),
    {
        graph_has_path(&self.package_graph.dep_graph, a, b, &mut self.dfs_space)
    }

    /// Returns true if `package_a` depends (directly or indirectly) on `package_b`.
    ///
    /// In other words, this returns true if `package_b` is a (possibly transitive) dependency of
    /// `package_a`.
    pub fn depends_on(&mut self, package_a: &PackageId, package_b: &PackageId) -> (r: Result<
        bool,
        Error,
    >)
        requires
            old(self).wf(),
        ensures
            final(self).wf(),
            final(self).graph() == old(self).graph(),
            depends_on_result(old(self).graph()@, package_a@, package_b@, r),
    {
        let a_ix = match self.package_graph.package_ix(package_a) {
            Some(ix) => ix,
            None => {
                return Err(Error::UnknownPackageId(package_a.duplicate()));
            },
        };
        let b_ix = match self.package_graph.package_ix(package_b) {
            Some(ix) => ix,
            None => {
                return Err(Error::UnknownPackageId(package_b.duplicate()));
            },
        };
        let answer = graph_has_path(
            &self.package_graph.dep_graph,
            a_ix,
            b_ix,
            &mut self.dfs_space,
        );
        proof {
            let g = self.package_graph@;
            assert(g.packages[a_ix as int].package.id@ == package_a@);
            assert(g.packages[b_ix as int].package.id@ == package_b@);
        }
        Ok(answer)
    }
}

/// Whether two packages are on a cycle: they differ, and each reaches the
/// other.
pub open spec fn on_cycle(edges: Seq<Edge>, a: int, b: int) -> bool {
    a != b && reachable(edges, a, b) && reachable(edges, b, a)
}

/// Whether the lists are the cycles of the graph: the strongly connected
/// components with two packages or more.
pub open spec fn cycles_of(g: PackageGraphView, cycles: Seq<Vec<usize>>) -> bool {
    &&& forall|i: int| 0 <= i < cycles.len() ==> (#[trigger] cycles[i]).len() >= 2
    &&& forall|i: int, j: int|
        0 <= i < cycles.len() && 0 <= j < cycles[i].len() ==> (#[trigger] cycles[i][j])
            < g.packages.len()
    &&& forall|i: int, j: int, k: int, l: int|
        0 <= i < cycles.len() && 0 <= j < cycles[i].len() && 0 <= k < cycles.len() && 0 <= l
            < cycles[k].len() && !(i == k && j == l) ==> ((i == k) <==> on_cycle(
            g.edges,
            (#[trigger] cycles[i][j]) as int,
            (#[trigger] cycles[k][l]) as int,
        ))
    &&& forall|a: int, b: int|
        0 <= a < g.packages.len() && 0 <= b < g.packages.len() && #[trigger] on_cycle(g.edges, a, b)
            ==> listed(cycles, a)
}

/// Contains information about dependency cycles.
///
/// Cargo permits cycles if at least one of the links in it is a dev-only
/// dependency.
pub struct Cycles<'g> {
    package_graph: &'g PackageGraph,
    sccs: Vec<Vec<usize>>,
}

impl<'g> Cycles<'g> {
    /// The graph that the cycles are of.
    pub closed spec fn graph(&self) -> &PackageGraph {
        self.package_graph
    }

    /// The cycles, as lists of package indices.
    pub closed spec fn lists(&self) -> Seq<Vec<usize>> {
        self.sccs@
    }

    /// Whether these are the cycles of a well-formed graph.
    pub open spec fn wf(&self) -> bool {
        self.graph().wf() && cycles_of(self.graph()@, self.lists())
    }

    /// Computes the cycles of a graph.
    #[verifier::loop_isolation(false)]
    pub fn new(package_graph: &'g PackageGraph) -> (r: Self)
        requires
            package_graph.wf(),
        ensures
            r.wf(),
            r.graph() == package_graph,
    {
        let all = graph_sccs(&package_graph.dep_graph);
        let ghost g = package_graph@;
        let mut sccs: Vec<Vec<usize>> = Vec::new();
        let ghost mut origin: Seq<int> = Seq::empty();
        let mut i: usize = 0;
        while i < all.len()
            invariant
                i <= all.len(),
                origin.len() == sccs.len(),
                forall|c: int|
                    0 <= c < sccs.len() ==> 0 <= (#[trigger] origin[c]) < i && sccs[c]@ == all[origin[c]]@
                        && sccs[c].len() >= 2,
                forall|c: int| 0 <= c < sccs.len() ==> (#[trigger] sccs[c]).len() >= 2,
                forall|c: int, d: int|
                    0 <= c < sccs.len() && 0 <= d < sccs.len() && c != d ==> (#[trigger] origin[c])
                        != (#[trigger] origin[d]),
                forall|o: int|
                    0 <= o < i && (#[trigger] all[o]).len() >= 2 ==> exists|c: int|
                        0 <= c < sccs.len() && #[trigger] origin[c] == o,
            decreases all.len() - i,
        {
            if all[i].len() >= 2 {
                sccs.push(all[i].clone());
                proof {
                    let before = origin;
                    origin = origin.push(i as int);
                    assert(origin[sccs.len() - 1] == i);
                    assert forall|o: int| 0 <= o < i + 1 && (#[trigger] all[o]).len() >= 2 implies exists|
                        c: int,
                    | 0 <= c < sccs.len() && #[trigger] origin[c] == o by {
                        if o < i {
                            let c = choose|c: int| 0 <= c < before.len() && #[trigger] before[c] == o;
                            assert(origin[c] == o);
                        }
                    }
                }
            }
            i = i + 1;
        }
        proof {
            assert forall|i: int, j: int| 0 <= i < sccs.len() && 0 <= j < sccs[i].len() implies (
            #[trigger] sccs[i][j]) < g.packages.len() by {
                assert(sccs[i][j] == all[origin[i]][j]);
            }
            assert forall|a: int, b: int|
                0 <= a < g.packages.len() && 0 <= b < g.packages.len() && #[trigger] on_cycle(
                    g.edges,
                    a,
                    b,
                ) implies listed(sccs@, a) by {
                assert(listed(all@, a));
                assert(listed(all@, b));
                let (o, j) = choose|o: int, j: int|
                    0 <= o < all@.len() && 0 <= j < all@[o].len() && #[trigger] all@[o][j] == a;
                let (p, l) = choose|p: int, l: int|
                    0 <= p < all@.len() && 0 <= l < all@[p].len() && #[trigger] all@[p][l] == b;
                assert(all[o][j] == a && all[p][l] == b);
                assert(o == p);
                assert(j != l);
                let c = choose|c: int| 0 <= c < sccs.len() && #[trigger] origin[c] == o;
                assert(sccs@[c][j] == a);
            }
            assert forall|i: int, j: int, k: int, l: int|
                0 <= i < sccs.len() && 0 <= j < sccs[i].len() && 0 <= k < sccs.len() && 0 <= l
                    < sccs[k].len() && !(i == k && j == l) implies ((i == k) <==> on_cycle(
                g.edges,
                (#[trigger] sccs[i][j]) as int,
                (#[trigger] sccs[k][l]) as int,
            )) by {
                assert(sccs[i][j] == all[origin[i]][j]);
                assert(sccs[k][l] == all[origin[k]][l]);
            }
        }
        Self { package_graph, sccs }
    }

    /// Returns true if these two IDs are in the same cycle.
    #[verifier::loop_isolation(false)]
    pub fn is_cyclic(&self, a: &PackageId, b: &PackageId) -> (r: Result<bool, Error>)
        requires
            self.wf(),
        ensures
            match r {
                Ok(answer) => exists|ia: int, ib: int|
                    0 <= ia < self.graph()@.packages.len() && 0 <= ib
                        < self.graph()@.packages.len() && (
                    #[trigger] self.graph()@.packages[ia]).package.id@ == a@ && (
                    #[trigger] self.graph()@.packages[ib]).package.id@ == b@ && answer == on_cycle(
                        self.graph()@.edges,
                        ia,
                        ib,
                    ),
                Err(e) => (!self.graph()@.knows(a@) && e@
                    == crate::errors::ErrorView::UnknownPackageId(a@)) || (self.graph()@.knows(a@)
                    && !self.graph()@.knows(b@) && e@ == crate::errors::ErrorView::UnknownPackageId(
                    b@,
                )),
            },
    {
        let a_ix = match self.package_graph.package_ix(a) {
            Some(ix) => ix,
            None => {
                return Err(Error::UnknownPackageId(a.duplicate()));
            },
        };
        let b_ix = match self.package_graph.package_ix(b) {
            Some(ix) => ix,
            None => {
                assert(self.graph()@.packages[a_ix as int].package.id@ == a@);
                return Err(Error::UnknownPackageId(b.duplicate()));
            },
        };
        let ghost g = self.package_graph@;
        assert(g.packages[a_ix as int].package.id@ == a@);
        assert(g.packages[b_ix as int].package.id@ == b@);
        if a_ix == b_ix {
            return Ok(false);
        }
        let mut i: usize = 0;
        while i < self.sccs.len()
            invariant
                i <= self.sccs.len(),
                self.wf(),
                g == self.package_graph@,
                a_ix != b_ix,
                a_ix < g.packages.len(),
                b_ix < g.packages.len(),
                forall|c: int, j: int|
                    0 <= c < i && 0 <= j < self.sccs[c].len() ==> (#[trigger] self.sccs[c][j])
                        != a_ix,
            decreases self.sccs.len() - i,
        {
            let scc = &self.sccs[i];
            let mut has_a: Option<usize> = None;
            let mut has_b: Option<usize> = None;
            let mut j: usize = 0;
            while j < scc.len()
                invariant
                    j <= scc.len(),
                    match has_a {
                        Some(at) => at < j && scc[at as int] == a_ix,
                        None => forall|l: int| 0 <= l < j ==> scc[l] != a_ix,
                    },
                    match has_b {
                        Some(at) => at < j && scc[at as int] == b_ix,
                        None => forall|l: int| 0 <= l < j ==> scc[l] != b_ix,
                    },
                decreases scc.len() - j,
            {
                if scc[j] == a_ix {
                    has_a = Some(j);
                }
                if scc[j] == b_ix {
                    has_b = Some(j);
                }
                j = j + 1;
            }
            match has_a {
                Some(at) => {
                    proof {
                        assert(self.lists()[i as int][at as int] == a_ix);
                        match has_b {
                            Some(bt) => {
                                assert(self.lists()[i as int][bt as int] == b_ix);
                            },
                            None => {
                                if on_cycle(g.edges, a_ix as int, b_ix as int) {
                                    assert(on_cycle(g.edges, b_ix as int, a_ix as int));
                                    assert(listed(self.lists(), b_ix as int));
                                    let (p, l) = choose|p: int, l: int|
                                        0 <= p < self.lists().len() && 0 <= l
                                            < self.lists()[p].len() && #[trigger] self.lists()[p][l]
                                            == b_ix as int;
                                    assert(self.lists()[p][l] == b_ix);
                                    assert(p == i);
                                }
                            },
                        }
                    }
                    return Ok(has_b.is_some());
                },
                None => {},
            }
            i = i + 1;
        }
        proof {
            if on_cycle(g.edges, a_ix as int, b_ix as int) {
                assert(listed(self.lists(), a_ix as int));
                let (p, l) = choose|p: int, l: int|
                    0 <= p < self.lists().len() && 0 <= l < self.lists()[p].len()
                        && #[trigger] self.lists()[p][l] == a_ix as int;
                assert(self.sccs[p][l] == a_ix);
            }
        }
        Ok(false)
    }

    /// Returns all the cycles of two or more packages in this graph, each
    /// as the IDs of its packages.
    pub fn all_cycles(&self) -> (r: Vec<Vec<&'g PackageId>>)
        requires
            self.wf(),
        ensures
            r.len() == self.lists().len(),
            forall|i: int|
                0 <= i < r.len() ==> (#[trigger] r[i]).len() == self.lists()[i].len(),
            forall|i: int, j: int|
                0 <= i < r.len() && 0 <= j < r[i].len() ==> (#[trigger] r[i][j])@
                    == self.graph()@.packages[self.lists()[i][j] as int].package.id@,
    {
        let mut out: Vec<Vec<&'g PackageId>> = Vec::new();
        let mut i: usize = 0;
        while i < self.sccs.len()
            invariant
                i <= self.sccs.len(),
                self.wf(),
                out.len() == i,
                forall|c: int| 0 <= c < i ==> (#[trigger] out[c]).len() == self.lists()[c].len(),
                forall|c: int, j: int|
                    0 <= c < i && 0 <= j < out[c].len() ==> (#[trigger] out[c][j])@
                        == self.graph()@.packages[self.lists()[c][j] as int].package.id@,
            decreases self.sccs.len() - i,
        {
            let scc = &self.sccs[i];
            let mut ids: Vec<&'g PackageId> = Vec::new();
            let mut j: usize = 0;
            while j < scc.len()
                invariant
                    j <= scc.len(),
                    self.wf(),
                    i < self.sccs.len(),
                    scc == self.sccs[i as int],
                    ids.len() == j,
                    forall|l: int|
                        0 <= l < j ==> (#[trigger] ids[l])@
                            == self.graph()@.packages[scc[l] as int].package.id@,
                decreases scc.len() - j,
            {
                assert(self.lists()[i as int][j as int] < self.graph()@.packages.len());
                let package = self.package_graph.package_at(scc[j]);
                ids.push(package.id());
                j = j + 1;
            }
            out.push(ids);
            i = i + 1;
        }
        out
    }
}

impl PackageGraph {
    /// Returns information about dependency cycles in this graph.
    ///
    /// For more information, see the documentation for `Cycles`.
    pub fn cycles<'g>(&'g self) -> (r: Cycles<'g>)
        requires
            self.wf(),
        ensures
            r.wf(),
            r.graph() == self,
    {
        Cycles::new(self)
    }
}

/// Whether a graph went from `before` to `after` by keeping the edges for
/// which `visit` gave `true` and removing those for which it gave `false`:
/// nothing else has changed.
pub open spec fn retained<F: Fn(&PackageGraphData, DependencyLink) -> bool>(
    before: PackageGraph,
    after: PackageGraph,
    visit: F,
) -> bool {
    &&& after@.node_count == before@.node_count
    &&& after@.packages == before@.packages
    &&& after@.links == before@.links
    &&& after@.workspace == before@.workspace
    &&& after@.topo == before@.topo
    &&& forall|edge: Edge| #[trigger]
        after@.edges.contains(edge) ==> before@.edges.contains(edge) && visit.ensures(
            (before.spec_data(), before.spec_link(edge)),
            true,
        )
    &&& forall|edge: Edge|
        before@.edges.contains(edge) && !(#[trigger] after@.edges.contains(edge)) ==> visit.ensures(
            (before.spec_data(), before.spec_link(edge)),
            false,
        )
}

/// Removing the links that are there for tests alone leaves a graph
/// without a cycle: where `visit` gives `true` for just the links that are
/// not for tests alone, none of the links that are kept is for tests
/// alone, and the edges that are kept have no cycle.
pub proof fn lemma_retain_without_dev_only<F: Fn(&PackageGraphData, DependencyLink) -> bool>(
    before: PackageGraph,
    after: PackageGraph,
    visit: F,
)
    requires
        before.wf(),
        after.wf(),
        retained(before, after, visit),
        forall|data: &PackageGraphData, link: DependencyLink, r: bool| #[trigger]
            visit.ensures((data, link), r) ==> r == !link@.edge.dev_only(),
    ensures
        forall|e: int|
            0 <= e < after@.edges.len() ==> !after@.link_at(#[trigger] after@.edges[e]).edge.dev_only(),
        is_acyclic(after@.packages.len(), after@.edges),
{
    let g = after@;
    assert forall|e: int| 0 <= e < g.edges.len() implies !g.link_at(
        #[trigger] g.edges[e],
    ).edge.dev_only() by {
        let edge = g.edges[e];
        assert(g.edges.contains(edge));
        assert(before@.edges.contains(edge));
        assert(visit.ensures((before.spec_data(), before.spec_link(edge)), true));
        before.lemma_spec_link(edge);
    }
    let keep = in_build(g.links);
    assert forall|e: int| 0 <= e < g.edges.len() implies keep(#[trigger] g.edges[e]) by {
        assert(!g.link_at(g.edges[e]).edge.dev_only());
        assert(g.edges[e].2 < g.links.len());
    }
    lemma_filter_keeps_all(g.edges, keep);
    after.lemma_build_edges_acyclic();
}

impl PackageGraph {
    /// The data of this graph.
    pub closed spec fn spec_data(&self) -> &PackageGraphData {
        &self.data
    }

    /// The link that an edge stands for.
    pub closed spec fn spec_link(&self, edge: Edge) -> DependencyLink<'_> {
        DependencyLink {
            data: &self.data,
            from: &self.data.packages[edge.0 as int],
            to: &self.data.packages[edge.1 as int],
            edge: &self.links[edge.2 as int],
        }
    }

    /// For an edge of a well-formed graph, the link that the edge stands
    /// for is the link of the model.
    pub proof fn lemma_spec_link(&self, edge: Edge)
        requires
            self.wf(),
            self@.edges.contains(edge),
        ensures
            self.spec_link(edge)@ == self@.link_at(edge),
    {
        let e = choose|e: int| 0 <= e < self@.edges.len() && self@.edges[e] == edge;
        assert(self@.edges[e].2 < self@.links.len());
    }

    /// Keeps all edges that return true from the visit closure, and removes the others.
    ///
    /// The order edges are visited is not specified.
    #[verifier::loop_isolation(false)]
    pub fn retain_edges<F>(&mut self, visit: F) where
        F: Fn(&PackageGraphData, DependencyLink<'_>) -> bool,

        requires
            old(self).wf(),
            forall|edge: Edge|
                old(self)@.edges.contains(edge) ==> #[trigger] visit.requires(
                    (old(self).spec_data(), old(self).spec_link(edge)),
                ),
        ensures
            final(self).wf(),
            retained(*old(self), *final(self), visit),
    {
        let ghost before = *self;
        let ghost edges = self@.edges;
        let m = graph_edge_count(&self.dep_graph);
        let mut keep: Vec<bool> = Vec::new();
        let mut i: usize = 0;
        while i < self.links.len()
            invariant
                i <= self.links.len(),
                keep.len() == i,
            decreases self.links.len() - i,
        {
            keep.push(false);
            i = i + 1;
        }
        let mut e: usize = 0;
        while e < m
            invariant
                e <= m,
                keep.len() == self.links.len(),
                *self == before,
                forall|f: int|
                    0 <= f < e ==> visit.ensures(
                        (before.spec_data(), before.spec_link(#[trigger] edges[f])),
                        keep[edges[f].2 as int],
                    ),
            decreases m - e,
        {
            let edge = graph_edge(&self.dep_graph, e);
            assert(edges.contains(edge));
            assert(edges[e as int].2 < self@.links.len());
            let link = DependencyLink {
                data: &self.data,
                from: &self.data.packages[edge.0],
                to: &self.data.packages[edge.1],
                edge: &self.links[edge.2],
            };
            assert(link == before.spec_link(edge));
            let answer = visit(&self.data, link);
            keep.set(edge.2, answer);
            e = e + 1;
        }
        graph_retain_edges(&mut self.dep_graph, &keep);
        proof {
            let after = self@.edges;
            let old_view = before@;
            assert forall|x: int| 0 <= x < after.len() implies edges.contains(#[trigger] after[x])
                && flag_set(keep@, after[x].2 as int) by {
                assert(after.contains(after[x]));
            }
            assert(self@.edges_wf()) by {
                assert forall|x: int| 0 <= x < after.len() implies (#[trigger] after[x]).0
                    < self@.packages.len() && after[x].1 < self@.packages.len() && after[x].2
                    < self@.links.len() by {
                    let o = choose|o: int| 0 <= o < edges.len() && edges[o] == after[x];
                }
                assert forall|x: int, y: int|
                    0 <= x < after.len() && 0 <= y < after.len() && x != y implies !((
                #[trigger] after[x]).0 == (#[trigger] after[y]).0 && after[x].1 == after[y].1) by {
                    let o = choose|o: int| 0 <= o < edges.len() && edges[o] == after[x];
                    let p = choose|p: int| 0 <= p < edges.len() && edges[p] == after[y];
                    assert(after[x].2 != after[y].2);
                    assert(o != p);
                }
            }
            assert(self@.links_wf()) by {
                assert forall|x: int| 0 <= x < after.len() implies self@.link_wf(
                    #[trigger] after[x],
                ) by {
                    let o = choose|o: int| 0 <= o < edges.len() && edges[o] == after[x];
                    assert(old_view.link_wf(edges[o]));
                }
            }
            assert(self@.topo_wf()) by {
                let keep_edge = in_build(self@.links);
                let part = after.filter(keep_edge);
                let all = edges.filter(keep_edge);
                assert forall|x: int| 0 <= x < part.len() implies all.contains(
                    #[trigger] part[x],
                ) by {
                    assert(part.contains(part[x]));
                    after.lemma_filter_contains_rev(keep_edge, part[x]);
                    after.lemma_filter_pred(keep_edge, x);
                    let o = choose|o: int| 0 <= o < edges.len() && edges[o] == part[x];
                    edges.lemma_filter_contains(keep_edge, o);
                }
                lemma_topological_for_part(self@.topo, self@.packages.len(), all, part);
            }
            assert forall|edge: Edge|
                edges.contains(edge) && !(#[trigger] after.contains(edge)) implies visit.ensures(
                (before.spec_data(), before.spec_link(edge)),
                false,
            ) by {
                let o = choose|o: int| 0 <= o < edges.len() && edges[o] == edge;
                assert(visit.ensures(
                    (before.spec_data(), before.spec_link(edges[o])),
                    keep[edges[o].2 as int],
                ));
            }
            assert forall|edge: Edge| #[trigger] after.contains(edge) implies edges.contains(edge)
                && visit.ensures((before.spec_data(), before.spec_link(edge)), true) by {
                let o = choose|o: int| 0 <= o < edges.len() && edges[o] == edge;
                assert(visit.ensures(
                    (before.spec_data(), before.spec_link(edges[o])),
                    keep[edges[o].2 as int],
                ));
            }
        }
    }

    /// Verifies internal invariants on this graph: that there is a node
    /// for each package, that every link joins packages of the graph and
    /// has details of some kind, that the version at its end meets what
    /// they ask for, that the workspace and the packages agree on its
    /// members, and that the links that are not there for tests alone have
    /// no cycle.
    ///
    /// Fails with `PackageGraphInternalError` where one of them does not
    /// hold.
    #[verifier::loop_isolation(false)]
    pub fn verify(&self) -> (r: Result<(), Error>)
        ensures
            match r {
                Ok(()) => self@.invariants_hold(),
                Err(e) => !self@.invariants_hold() && e@
                    == crate::errors::ErrorView::PackageGraphInternalError,
            },
    {
        let ghost g = self@;
        // Graph structure checks.
        let node_count = graph_node_count(&self.dep_graph);
        let package_count = self.data.packages.len();
        if node_count != package_count {
            return Err(
                Error::PackageGraphInternalError(
                    "number of nodes different from number of packages".to_owned(),
                ),
            );
        }
        let link_count = graph_edge_count(&self.dep_graph);
        if node_count > 0xffff_ffff || link_count > 0xffff_ffff {
            return Err(
                Error::PackageGraphInternalError("more nodes or links than can be counted".to_owned()),
            );
        }
        let mut e: usize = 0;
        while e < link_count
            invariant
                e <= link_count,
                forall|f: int| 0 <= f < e ==> g.link_in_order(#[trigger] g.edges[f]),
            decreases link_count - e,
        {
            let edge = graph_edge(&self.dep_graph, e);
            if edge.0 >= package_count || edge.1 >= package_count || edge.2 >= self.links.len() {
                assert(!g.link_in_order(g.edges[e as int]));
                return Err(
                    Error::PackageGraphInternalError(
                        "a link between packages that are not there".to_owned(),
                    ),
                );
            }
            let from = &self.data.packages[edge.0];
            let to = &self.data.packages[edge.1];
            let link = &self.links[edge.2];
            assert(g.packages[edge.1 as int] == to@);
            assert(g.links[edge.2 as int] == link@);
            let to_version = to.version();
            // Two invariants:
            // 1. At least one of the edges should be specified.
            // 2. The specified package should match the version dependency.
            let mut edge_set = false;
            let mut versions_match = true;
            if let Some(dep_metadata) = link.normal() {
                edge_set = true;
                if !cargo_version_matches(dep_metadata.version_req(), to_version) {
                    versions_match = false;
                }
            }
            if let Some(dep_metadata) = link.build() {
                edge_set = true;
                if !cargo_version_matches(dep_metadata.version_req(), to_version) {
                    versions_match = false;
                }
            }
            if let Some(dep_metadata) = link.dev() {
                edge_set = true;
                if !cargo_version_matches(dep_metadata.version_req(), to_version) {
                    versions_match = false;
                }
            }
            if !versions_match {
                assert(!g.link_in_order(g.edges[e as int]));
                return Err(
                    Error::PackageGraphInternalError(
                        crate::errors::join4(
                            from.id().repr.as_str(),
                            " -> ",
                            to.id().repr.as_str(),
                            ": version doesn't match requirement",
                        ),
                    ),
                );
            }
            if !edge_set {
                assert(!g.link_in_order(g.edges[e as int]));
                return Err(
                    Error::PackageGraphInternalError(
                        crate::errors::join4(
                            from.id().repr.as_str(),
                            " -> ",
                            to.id().repr.as_str(),
                            ": no edge info found",
                        ),
                    ),
                );
            }
            e = e + 1;
        }
        let members = self.data.workspace.members();
        let mut i: usize = 0;
        while i < package_count
            invariant
                i <= package_count,
                forall|j: int| 0 <= j < i ==> g.membership_agrees(#[trigger] g.packages[j]),
            decreases package_count - i,
        {
            let metadata = &self.data.packages[i];
            assert(metadata@ == g.packages[i as int]);
            let mut is_member = false;
            let mut k: usize = 0;
            while k < members.len()
                invariant
                    k <= members.len(),
                    is_member <==> exists|l: int|
                        0 <= l < k && (#[trigger] g.workspace.members[l]).1 == metadata@.package.id@,
                decreases members.len() - k,
            {
                assert(g.workspace.members[k as int].1 == members[k as int].1@);
                if crate::text::str_eq(members[k].1.repr.as_str(), metadata.id().repr.as_str()) {
                    is_member = true;
                }
                k = k + 1;
            }
            if metadata.in_workspace() != is_member {
                assert(!g.membership_agrees(g.packages[i as int]));
                return Err(
                    Error::PackageGraphInternalError(
                        crate::errors::join2(
                            "the workspace and the package do not agree on its membership: ",
                            metadata.id().repr.as_str(),
                        ),
                    ),
                );
            }
            i = i + 1;
        }
        proof {
            let edges = edges_of(self.dep_graph);
            assert(edges == g.edges);
            assert forall|f: int| 0 <= f < edges.len() implies (#[trigger] edges[f]).0
                < node_count_of(self.dep_graph) && edges[f].1 < node_count_of(self.dep_graph)
                && edges[f].2 < self.links.len() by {
                assert(g.link_in_order(g.edges[f]));
            }
            assert(edges_in_range(edges, node_count_of(self.dep_graph)));
        }
        match crate::graph::assemble::order_packages(&self.dep_graph, &self.links) {
            Ok(_) => Ok(()),
            Err(e) => Err(e),
        }
    }

    /// In a well-formed graph the invariants hold: `verify` never fails on
    /// it.
    pub proof fn lemma_invariants_hold(&self)
        requires
            self.wf(),
        ensures
            self@.invariants_hold(),
    {
        let g = self@;
        assert forall|i: int| 0 <= i < g.packages.len() implies g.membership_agrees(
            #[trigger] g.packages[i],
        ) by {
            self.lemma_workspace_members(i);
        }
        assert forall|e: int| 0 <= e < g.edges.len() implies g.link_in_order(
            #[trigger] g.edges[e],
        ) by {
            assert(g.link_wf(g.edges[e]));
        }
        self.lemma_build_edges_acyclic();
    }

    /// In a well-formed graph there are as many nodes as packages.
    pub proof fn lemma_nodes_are_packages(&self)
        requires
            self.wf(),
        ensures
            self@.node_count == self@.packages.len(),
    {
    }

    /// In a well-formed graph a package has a path in the workspace if and
    /// only if it is one of the members of the workspace.
    pub proof fn lemma_workspace_members(&self, i: int)
        requires
            self.wf(),
            0 <= i < self@.packages.len(),
        ensures
            self@.packages[i].workspace_path is Some <==> exists|k: int|
                0 <= k < self@.workspace.members.len() && (#[trigger] self@.workspace.members[k]).1
                    == self@.packages[i].package.id@,
    {
        let g = self@;
        assert(g.package_is_member(g.packages[i]));
        if g.packages[i].workspace_path is Some {
            let m = (g.packages[i].workspace_path->0, g.packages[i].package.id@);
            let k = choose|k: int| 0 <= k < g.workspace.members.len() && g.workspace.members[k] == m;
            assert(g.workspace.members[k].1 == g.packages[i].package.id@);
        }
        if exists|k: int|
            0 <= k < g.workspace.members.len() && (#[trigger] g.workspace.members[k]).1
                == g.packages[i].package.id@ {
            let k = choose|k: int|
                0 <= k < g.workspace.members.len() && (#[trigger] g.workspace.members[k]).1
                    == g.packages[i].package.id@;
            assert(g.member_is_package(g.workspace.members[k]));
            let j = choose|j: int|
                0 <= j < g.packages.len() && (#[trigger] g.packages[j]).package.id@
                    == g.workspace.members[k].1 && g.packages[j].workspace_path == Some(
                    g.workspace.members[k].0,
                );
            assert(j == i);
        }
    }

    /// In a well-formed graph every edge has details of a normal, a build
    /// or a development dependency.
    pub proof fn lemma_edges_have_kinds(&self, e: int)
        requires
            self.wf(),
            0 <= e < self@.edges.len(),
        ensures
            self@.links[self@.edges[e].2 as int].has_kind(),
    {
        assert(self@.link_wf(self@.edges[e]));
    }

    /// In a well-formed graph the version of the package at the end of an
    /// edge meets the requirement of each kind of the edge, as Cargo sees
    /// it: a requirement `*` is met by every version.
    pub proof fn lemma_versions_match(&self, e: int, kind: DependencyKind)
        requires
            self.wf(),
            0 <= e < self@.edges.len(),
        ensures
            self@.links[self@.edges[e].2 as int].metadata_for_kind(kind) matches Some(m)
                ==> version_matches(
                m.version_req,
                self@.packages[self@.edges[e].1 as int].package.version@,
            ),
    {
        assert(self@.link_wf(self@.edges[e]));
    }

    /// In a well-formed graph the edges that are not there for tests alone
    /// have no cycle.
    pub proof fn lemma_build_edges_acyclic(&self)
        requires
            self.wf(),
        ensures
            is_acyclic(self@.packages.len(), self@.build_edges()),
    {
        assert(is_topological_order(self@.topo, self@.packages.len(), self@.build_edges()));
    }

    /// A well-formed graph without links that are there for tests alone
    /// has no cycle: no walk of two or more packages comes back to where
    /// it began. Such is a graph of which `retain_edges` has kept the
    /// links that are not for tests alone.
    pub proof fn lemma_without_dev_only_no_cycle(&self, p: Seq<int>)
        requires
            self.wf(),
            forall|e: int|
                0 <= e < self@.edges.len() ==> !self@.link_at(#[trigger] self@.edges[e]).edge.dev_only(),
            is_walk(self@.edges, p),
            p.len() >= 2,
        ensures
            is_acyclic(self@.packages.len(), self@.edges),
            p.first() != p.last(),
    {
        let g = self@;
        let keep = in_build(g.links);
        assert forall|e: int| 0 <= e < g.edges.len() implies keep(#[trigger] g.edges[e]) by {
            assert(!g.link_at(g.edges[e]).edge.dev_only());
            assert(g.edges[e].2 < g.links.len());
        }
        lemma_filter_keeps_all(g.edges, keep);
        self.lemma_build_edges_acyclic();
        self.lemma_no_build_cycle(p);
    }

    /// In a well-formed graph no walk of two or more packages along edges
    /// that are not there for tests alone comes back to where it began.
    pub proof fn lemma_no_build_cycle(&self, p: Seq<int>)
        requires
            self.wf(),
            is_walk(self@.build_edges(), p),
            p.len() >= 2,
        ensures
            p.first() != p.last(),
    {
        let g = self@;
        let built = g.build_edges();
        self.lemma_build_edges_acyclic();
        assert forall|e: int| 0 <= e < built.len() implies (#[trigger] built[e]).0
            < g.packages.len() && built[e].1 < g.packages.len() by {
            assert(built.contains(built[e]));
            g.edges.lemma_filter_contains_rev(in_build(g.links), built[e]);
            let k = choose|k: int| 0 <= k < g.edges.len() && g.edges[k] == built[e];
            assert(g.edges[k].0 < g.packages.len());
        }
        lemma_acyclic_has_no_closed_walk(g.packages.len(), built, p);
    }
}

impl PackageGraph {
    /// Marks the packages that walks along enabled edges reach from the
    /// seeds. An edge is enabled when the flag of its details is set in
    /// `enabled`.
    pub fn reach(&self, seeds: &Vec<usize>, enabled: &Vec<bool>, direction: DependencyDirection) -> (marks:
        Vec<bool>)
        requires
            self.wf(),
            forall|k: int| 0 <= k < seeds.len() ==> (#[trigger] seeds[k]) < self@.packages.len(),
        ensures
            marks.len() == self@.packages.len(),
            forall|v: int|
                0 <= v < marks.len() ==> (marks[v] <==> crate::reach::reached(
                    self@.edges,
                    enabled@,
                    direction,
                    seeds@,
                    v,
                )),
    {
        crate::reach::reach(&self.dep_graph, seeds, enabled, direction)
    }

    /// The edges of the graph, by edge index.
    pub fn all_edges(&self) -> (r: Vec<Edge>)
        ensures
            r@ == self@.edges,
    {
        let m = graph_edge_count(&self.dep_graph);
        let mut out: Vec<Edge> = Vec::new();
        let mut e: usize = 0;
        while e < m
            invariant
                e <= m,
                m == self@.edges.len(),
                out.len() == e,
                forall|k: int| 0 <= k < e ==> out[k] == self@.edges[k],
            decreases m - e,
        {
            out.push(graph_edge(&self.dep_graph, e));
            e = e + 1;
        }
        assert(out@ =~= self@.edges);
        out
    }

    /// The packages in an order in which each comes before those that it
    /// depends on, as far as the dependency is not for tests alone.
    pub fn topo(&self) -> (r: &Vec<usize>)
        ensures
            r@ == self@.topo,
    {
        &self.topo
    }

    /// The number of details of edges that the graph keeps.
    pub fn link_slots(&self) -> (r: usize)
        ensures
            r == self@.links.len(),
    {
        self.links.len()
    }

    /// The details of an edge, by their index.
    pub fn link_details(&self, w: usize) -> (r: &DependencyEdge)
        requires
            w < self@.links.len(),
        ensures
            r@ == self@.links[w as int],
    {
        &self.links[w]
    }
}

} // verus!
