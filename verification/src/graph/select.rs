//! Queries over the package graph: what a set of packages reaches along
//! the links that a filter lets pass.

use crate::errors::Error;
use crate::graph::dependency::DependencyEdgeView;
use crate::graph::graph_impl::{
    DependencyLink, DependencyLinkView, PackageGraph, PackageGraphView, PackageMetadata,
};
use crate::graph::ingest::contains_string;
use crate::metadata::PackageId;
use crate::petgraph_support::{flag_set, is_topological_order, DependencyDirection, Edge};
use crate::reach::reached;
use vstd::prelude::*;

verus! {

/// Which links a filter follows, by the packages at their ends.
#[derive(Clone, Copy, Debug, PartialEq, Eq)]
pub enum Kind {
    /// Every link.
    All,
    /// Links between packages of the workspace.
    Workspace,
    /// Links that start in the workspace.
    DirectThirdParty,
    /// Every link; the packages outside the workspace are what is asked for.
    ThirdParty,
}

/// A filter on links, made of the usual options.
#[derive(Clone, Debug, PartialEq, Eq)]
pub struct FilterOptions {
    /// Follow links that stand for development dependencies.
    pub include_dev: bool,
    /// Follow links that stand for build dependencies.
    pub include_build: bool,
    /// Follow no link into a package of one of these names.
    pub omit_edges_into: Vec<String>,
    /// Which links to follow, by the packages at their ends.
    pub kind: Kind,
}

impl FilterOptions {
    /// Whether the filter follows a link: the ends of the link are as the
    /// kind asks, the link stands for a normal dependency or for one of the
    /// other kinds that the filter includes, and it leads into no package
    /// that is to be omitted.
    pub open spec fn accepts(&self, link: DependencyLinkView) -> bool {
        let by_kind = match self.kind {
            Kind::All => true,
            Kind::ThirdParty => true,
            Kind::DirectThirdParty => link.from.workspace_path is Some,
            Kind::Workspace => link.from.workspace_path is Some && link.to.workspace_path is Some,
        };
        let by_type = link.edge.normal is Some || (self.include_dev && link.edge.dev is Some) || (
        self.include_build && link.edge.build is Some);
        let omitted = crate::graph::dependency::strings_view(self.omit_edges_into@).contains(
            link.to.package.name@,
        );
        by_kind && by_type && !omitted
    }

    /// Returns true if the filter follows the link.
    pub fn follows(&self, link: &DependencyLink<'_>) -> (r: bool)
        ensures
            r == self.accepts(link@),
    {
        let by_kind = match self.kind {
            Kind::All => true,
            Kind::ThirdParty => true,
            Kind::DirectThirdParty => link.from.in_workspace(),
            Kind::Workspace => link.from.in_workspace() && link.to.in_workspace(),
        };
        let by_type = link.edge.normal().is_some() || (self.include_dev && link.edge.dev().is_some())
            || (self.include_build && link.edge.build().is_some());
        let omitted = contains_string(&self.omit_edges_into, link.to.name());
        by_kind && by_type && !omitted
    }
}

/// A query over a package graph: the packages to start from, and the
/// direction to walk in.
pub struct PackageQuery<'g> {
    graph: &'g PackageGraph,
    seeds: Vec<usize>,
    direction: DependencyDirection,
}

/// Whether the indices are those of the packages with the given
/// identifiers, in the same order.
pub open spec fn indices_of(g: PackageGraphView, ixs: Seq<usize>, ids: Seq<PackageId>) -> bool {
    &&& ixs.len() == ids.len()
    &&& forall|k: int|
        0 <= k < ids.len() ==> (#[trigger] ixs[k]) < g.packages.len() && g.packages[ixs[k] as int].package.id@
            == ids[k]@
}

/// The first of the identifiers that no package has, if there is one.
pub open spec fn first_unknown(g: PackageGraphView, ids: Seq<PackageId>, i: int) -> Option<Seq<char>>
    decreases ids.len() - i,
{
    if i < 0 || i >= ids.len() {
        None
    } else if !g.knows(ids[i]@) {
        Some(ids[i]@)
    } else {
        first_unknown(g, ids, i + 1)
    }
}

impl<'g> PackageQuery<'g> {
    /// The graph that is asked.
    pub closed spec fn graph(&self) -> &PackageGraph {
        self.graph
    }

    /// The indices of the packages to start from.
    pub closed spec fn seeds(&self) -> Seq<usize> {
        self.seeds@
    }

    /// The direction to walk in.
    pub closed spec fn direction(&self) -> DependencyDirection {
        self.direction
    }

    /// Whether the query is on a well-formed graph and starts from packages
    /// of it.
    pub open spec fn wf(&self) -> bool {
        &&& self.graph().wf()
        &&& forall|k: int|
            0 <= k < self.seeds().len() ==> (#[trigger] self.seeds()[k]) < self.graph()@.packages.len()
    }

    /// The query that starts from the packages at the given indices.
    pub fn new(graph: &'g PackageGraph, seeds: Vec<usize>, direction: DependencyDirection) -> (r: Self)
        requires
            graph.wf(),
            forall|k: int| 0 <= k < seeds.len() ==> (#[trigger] seeds[k]) < graph@.packages.len(),
        ensures
            r.wf(),
            r.graph() == graph,
            r.seeds() == seeds@,
            r.direction() == direction,
    {
        PackageQuery { graph, seeds, direction }
    }

    /// The graph that is asked.
    pub fn package_graph(&self) -> (r: &'g PackageGraph)
        ensures
            r == self.graph(),
    {
        self.graph
    }

    /// The indices of the packages that the query starts from.
    pub fn starts_from(&self) -> (r: &Vec<usize>)
        ensures
            r@ == self.seeds(),
    {
        &self.seeds
    }

    /// The direction that the query walks in.
    pub fn walks(&self) -> (r: DependencyDirection)
        ensures
            r == self.direction(),
    {
        self.direction
    }

    /// Resolves this query into the set of the packages that it reaches
    /// along any link.
    pub fn resolve(self) -> (r: PackageSet<'g>)
        requires
            self.wf(),
        ensures
            r.wf(),
            r.graph() == self.graph(),
            forall|w: int| 0 <= w < r.enabled().len() ==> r.enabled()[w],
            r.enabled().len() == self.graph()@.links.len(),
            r.holds_reached(self.seeds(), self.direction()),
    {
        let n = self.graph.link_slots();
        let mut enabled: Vec<bool> = Vec::new();
        let mut w: usize = 0;
        while w < n
            invariant
                w <= n,
                enabled.len() == w,
                forall|k: int| 0 <= k < w ==> enabled[k],
            decreases n - w,
        {
            enabled.push(true);
            w = w + 1;
        }
        assert forall|k: int| 0 <= k < self.seeds.len() implies (#[trigger] self.seeds[k])
            < self.graph@.packages.len() by {
            assert(self.seeds()[k] < self.graph()@.packages.len());
        }
        let included = self.graph.reach(&self.seeds, &enabled, self.direction);
        PackageSet { graph: self.graph, included, enabled }
    }

    /// Resolves this query into the set of the packages that it reaches
    /// along the links that the filter follows.
    #[verifier::loop_isolation(false)]
    pub fn resolve_with(self, filter: &FilterOptions) -> (r: PackageSet<'g>)
        requires
            self.wf(),
        ensures
            r.wf(),
            r.graph() == self.graph(),
            r.enabled().len() == self.graph()@.links.len(),
            forall|e: int|
                0 <= e < self.graph()@.edges.len() ==> r.enabled()[(
                #[trigger] self.graph()@.edges[e]).2 as int] == filter.accepts(
                    self.graph()@.link_at(self.graph()@.edges[e]),
                ),
            r.holds_reached(self.seeds(), self.direction()),
    {
        let ghost g = self.graph@;
        let n = self.graph.link_slots();
        let mut enabled: Vec<bool> = Vec::new();
        let mut w: usize = 0;
        while w < n
            invariant
                w <= n,
                enabled.len() == w,
            decreases n - w,
        {
            enabled.push(false);
            w = w + 1;
        }
        let edges = self.graph.all_edges();
        let mut e: usize = 0;
        while e < edges.len()
            invariant
                e <= edges.len(),
                enabled.len() == n,
                forall|f: int|
                    0 <= f < e ==> enabled[(#[trigger] g.edges[f]).2 as int] == filter.accepts(
                        g.link_at(g.edges[f]),
                    ),
            decreases edges.len() - e,
        {
            let edge = edges[e];
            assert(g.edges.contains(edge));
            let link = self.graph.edge_to_link(edge);
            let answer = filter.follows(&link);
            enabled.set(edge.2, answer);
            e = e + 1;
        }
        assert forall|k: int| 0 <= k < self.seeds.len() implies (#[trigger] self.seeds[k])
            < self.graph@.packages.len() by {
            assert(self.seeds()[k] < self.graph()@.packages.len());
        }
        let included = self.graph.reach(&self.seeds, &enabled, self.direction);
        PackageSet { graph: self.graph, included, enabled }
    }

    /// Resolves this query into the set of the packages that it reaches
    /// along the links for which the given function returns true.
    #[verifier::loop_isolation(false)]
    pub fn resolve_with_fn<F>(self, resolver: F) -> (r: PackageSet<'g>) where
        F: Fn(DependencyLink<'_>) -> bool,

        requires
            self.wf(),
            forall|edge: Edge|
                self.graph()@.edges.contains(edge) ==> #[trigger] resolver.requires(
                    (self.graph().spec_link(edge),),
                ),
        ensures
            r.wf(),
            r.graph() == self.graph(),
            r.enabled().len() == self.graph()@.links.len(),
            forall|e: int|
                0 <= e < self.graph()@.edges.len() ==> resolver.ensures(
                    (self.graph().spec_link(#[trigger] self.graph()@.edges[e]),),
                    r.enabled()[self.graph()@.edges[e].2 as int],
                ),
            r.holds_reached(self.seeds(), self.direction()),
    {
        let ghost g = self.graph@;
        let n = self.graph.link_slots();
        let mut enabled: Vec<bool> = Vec::new();
        let mut w: usize = 0;
        while w < n
            invariant
                w <= n,
                enabled.len() == w,
            decreases n - w,
        {
            enabled.push(false);
            w = w + 1;
        }
        let edges = self.graph.all_edges();
        let mut e: usize = 0;
        while e < edges.len()
            invariant
                e <= edges.len(),
                enabled.len() == n,
                forall|f: int|
                    0 <= f < e ==> resolver.ensures(
                        (self.graph.spec_link(#[trigger] g.edges[f]),),
                        enabled[g.edges[f].2 as int],
                    ),
            decreases edges.len() - e,
        {
            let edge = edges[e];
            assert(g.edges.contains(edge));
            let link = self.graph.edge_to_link_exact(edge);
            let answer = resolver(link);
            enabled.set(edge.2, answer);
            e = e + 1;
        }
        assert forall|k: int| 0 <= k < self.seeds.len() implies (#[trigger] self.seeds[k])
            < self.graph@.packages.len() by {
            assert(self.seeds()[k] < self.graph()@.packages.len());
        }
        let included = self.graph.reach(&self.seeds, &enabled, self.direction);
        PackageSet { graph: self.graph, included, enabled }
    }
}

/// A set of packages of a graph, as a query resolves to it.
pub struct PackageSet<'g> {
    graph: &'g PackageGraph,
    // By package index: whether the package is in the set.
    included: Vec<bool>,
    // By the index of the details of a link: whether the link was followed.
    enabled: Vec<bool>,
}

/// Whether the mark of a package is set.
pub open spec fn is_marked(marks: Seq<bool>) -> spec_fn(usize) -> bool {
    |v: usize| flag_set(marks, v as int)
}

impl<'g> PackageSet<'g> {
    /// The graph that the packages are of.
    pub closed spec fn graph(&self) -> &PackageGraph {
        self.graph
    }

    /// By package index: whether the package is in the set.
    pub closed spec fn included(&self) -> Seq<bool> {
        self.included@
    }

    /// By the index of the details of a link: whether the link was followed.
    pub closed spec fn enabled(&self) -> Seq<bool> {
        self.enabled@
    }

    /// Whether the set is one of packages of a well-formed graph.
    pub open spec fn wf(&self) -> bool {
        &&& self.graph().wf()
        &&& self.included().len() == self.graph()@.packages.len()
    }

    /// Whether the set holds the packages that the seeds reach in the
    /// direction, along the links that were followed, and no others.
    pub open spec fn holds_reached(&self, seeds: Seq<usize>, direction: DependencyDirection) -> bool {
        forall|v: int|
            0 <= v < self.included().len() ==> (self.included()[v] <==> reached(
                self.graph()@.edges,
                self.enabled(),
                direction,
                seeds,
                v,
            ))
    }

    /// The packages of the set in the given direction: forward, each
    /// package comes before those that it depends on (as far as the
    /// dependency is not for tests alone); reverse, after them.
    pub open spec fn in_order(&self, direction: DependencyDirection) -> Seq<usize> {
        if direction == DependencyDirection::Forward {
            self.graph()@.topo.filter(is_marked(self.included()))
        } else {
            self.graph()@.topo.reverse().filter(is_marked(self.included()))
        }
    }

    /// The graph that the packages are of.
    pub fn package_graph(&self) -> (r: &'g PackageGraph)
        ensures
            r == self.graph(),
    {
        self.graph
    }

    /// Returns the number of packages in this set.
    pub fn len(&self) -> (r: usize)
        requires
            self.wf(),
        ensures
            r == crate::reach::count_set(self.included()),
    {
        let mut count: usize = 0;
        let mut i: usize = 0;
        assert(self.included@.subrange(0, 0) =~= Seq::<bool>::empty());
        while i < self.included.len()
            invariant
                i <= self.included.len(),
                count <= i,
                count == crate::reach::count_set(self.included@.subrange(0, i as int)),
            decreases self.included.len() - i,
        {
            assert(self.included@.subrange(0, i + 1).drop_last() =~= self.included@.subrange(
                0,
                i as int,
            ));
            if self.included[i] {
                count = count + 1;
            }
            i = i + 1;
        }
        assert(self.included@.subrange(0, self.included@.len() as int) =~= self.included@);
        count
    }

    /// Returns true if this set holds the package at the index.
    pub fn contains_ix(&self, ix: usize) -> (r: bool)
        ensures
            r == flag_set(self.included(), ix as int),
    {
        ix < self.included.len() && self.included[ix]
    }

    /// Returns true if this set holds the package with the ID; fails on an
    /// ID that the graph does not know.
    pub fn contains(&self, package_id: &PackageId) -> (r: Result<bool, Error>)
        requires
            self.wf(),
        ensures
            match r {
                Ok(answer) => exists|i: int|
                    0 <= i < self.graph()@.packages.len() && (#[trigger] self.graph()@.packages[i]).package.id@
                        == package_id@ && answer == self.included()[i],
                Err(e) => !self.graph()@.knows(package_id@) && e@
                    == crate::errors::ErrorView::UnknownPackageId(package_id@),
            },
    {
        match self.graph.package_ix(package_id) {
            Some(ix) => {
                assert(self.graph()@.packages[ix as int].package.id@ == package_id@);
                Ok(self.included[ix])
            },
            None => Err(Error::UnknownPackageId(package_id.duplicate())),
        }
    }

    /// Returns the indices of the packages in this set, in the given
    /// direction.
    #[verifier::loop_isolation(false)]
    pub fn package_ixs(&self, direction: DependencyDirection) -> (r: Vec<usize>)
        requires
            self.wf(),
        ensures
            r@ == self.in_order(direction),
            forall|k: int| 0 <= k < r.len() ==> (#[trigger] r[k]) < self.graph()@.packages.len(),
    {
        let topo = self.graph.topo();
        let order = match direction {
            DependencyDirection::Forward => copy_of(topo),
            DependencyDirection::Reverse => reverse_of(topo),
        };
        let ghost keep = is_marked(self.included@);
        let mut out: Vec<usize> = Vec::new();
        let mut i: usize = 0;
        assert(order@.subrange(0, 0) =~= Seq::<usize>::empty());
        assert(Seq::<usize>::empty().filter(keep) =~= Seq::<usize>::empty()) by {
            reveal(Seq::filter);
        }
        while i < order.len()
            invariant
                i <= order.len(),
                out@ == order@.subrange(0, i as int).filter(keep),
                forall|k: int| 0 <= k < out.len() ==> (#[trigger] out[k]) < self.included.len(),
            decreases order.len() - i,
        {
            proof {
                assert(order@.subrange(0, i + 1) =~= order@.subrange(0, i as int).push(
                    order[i as int],
                ));
                order@.subrange(0, i as int).lemma_filter_push(order[i as int], keep);
            }
            if self.contains_ix(order[i]) {
                out.push(order[i]);
            }
            i = i + 1;
        }
        assert(order@.subrange(0, order@.len() as int) =~= order@);
        out
    }

    /// Returns the IDs of the packages in this set, in the given direction.
    pub fn package_ids(&self, direction: DependencyDirection) -> (r: Vec<&'g PackageId>)
        requires
            self.wf(),
        ensures
            r.len() == self.in_order(direction).len(),
            forall|k: int|
                0 <= k < r.len() ==> (#[trigger] r[k])@
                    == self.graph()@.packages[self.in_order(direction)[k] as int].package.id@,
    {
        let ixs = self.package_ixs(direction);
        let mut out: Vec<&'g PackageId> = Vec::new();
        let mut i: usize = 0;
        while i < ixs.len()
            invariant
                i <= ixs.len(),
                self.wf(),
                ixs@ == self.in_order(direction),
                forall|k: int| 0 <= k < ixs.len() ==> (#[trigger] ixs[k]) < self.graph()@.packages.len(),
                out.len() == i,
                forall|k: int|
                    0 <= k < i ==> (#[trigger] out[k])@
                        == self.graph()@.packages[ixs[k] as int].package.id@,
            decreases ixs.len() - i,
        {
            out.push(self.graph.package_at(ixs[i]).id());
            i = i + 1;
        }
        out
    }

    /// Returns the packages in this set, in the given direction.
    pub fn packages(&self, direction: DependencyDirection) -> (r: Vec<&'g PackageMetadata>)
        requires
            self.wf(),
        ensures
            r.len() == self.in_order(direction).len(),
            forall|k: int|
                0 <= k < r.len() ==> (#[trigger] r[k])@
                    == self.graph()@.packages[self.in_order(direction)[k] as int] && r[k].rep_ok(),
    {
        let ixs = self.package_ixs(direction);
        let mut out: Vec<&'g PackageMetadata> = Vec::new();
        let mut i: usize = 0;
        while i < ixs.len()
            invariant
                i <= ixs.len(),
                self.wf(),
                ixs@ == self.in_order(direction),
                forall|k: int| 0 <= k < ixs.len() ==> (#[trigger] ixs[k]) < self.graph()@.packages.len(),
                out.len() == i,
                forall|k: int|
                    0 <= k < i ==> (#[trigger] out[k])@ == self.graph()@.packages[ixs[k] as int]
                        && out[k].rep_ok(),
            decreases ixs.len() - i,
        {
            out.push(self.graph.package_at(ixs[i]));
            i = i + 1;
        }
        out
    }
}

/// A copy of a list of indices.
pub fn copy_of(v: &Vec<usize>) -> (r: Vec<usize>)
    ensures
        r@ == v@,
{
    let mut out: Vec<usize> = Vec::new();
    let mut i: usize = 0;
    while i < v.len()
        invariant
            i <= v.len(),
            out.len() == i,
            forall|k: int| 0 <= k < i ==> out[k] == v[k],
        decreases v.len() - i,
    {
        out.push(v[i]);
        i = i + 1;
    }
    assert(out@ =~= v@);
    out
}

/// A list of indices in the opposite order.
pub fn reverse_of(v: &Vec<usize>) -> (r: Vec<usize>)
    ensures
        r@ == v@.reverse(),
{
    let mut out: Vec<usize> = Vec::new();
    let mut i: usize = v.len();
    while i > 0
        invariant
            i <= v.len(),
            out.len() == v.len() - i,
            forall|k: int| 0 <= k < out.len() ==> out[k] == v[v.len() - 1 - k],
        decreases i,
    {
        i = i - 1;
        out.push(v[i]);
    }
    assert(out@ =~= v@.reverse());
    out
}

/// Whether a package is a member of the workspace and has the name.
pub open spec fn member_named(g: PackageGraphView, i: int, name: Seq<char>) -> bool {
    0 <= i < g.packages.len() && g.packages[i].workspace_path is Some && g.packages[i].package.name@
        == name
}

/// Whether a package is the first member of the workspace, in the order
/// of the packages, that has the name.
pub open spec fn first_member_named(g: PackageGraphView, i: int, name: Seq<char>) -> bool {
    member_named(g, i, name) && forall|j: int| 0 <= j < i ==> !member_named(g, j, name)
}

/// The first of the names that no member of the workspace has, if there
/// is one.
pub open spec fn first_unknown_name(g: PackageGraphView, names: Seq<String>, k: int) -> Option<
    Seq<char>,
>
    decreases names.len() - k,
{
    if k < 0 || k >= names.len() {
        None
    } else if !(exists|i: int| member_named(g, i, names[k]@)) {
        Some(names[k]@)
    } else {
        first_unknown_name(g, names, k + 1)
    }
}

/// Whether an error is that of the first of the names that no member of
/// the workspace has.
pub open spec fn is_unknown_name_error(g: PackageGraphView, names: Seq<String>, e: Error) -> bool {
    names.len() > 0 && (first_unknown_name(g, names, 0) matches Some(name) && e@
        == crate::errors::ErrorView::UnknownPackageId(name))
}

impl PackageGraph {
    /// Maps package IDs to their internal graph node indexes. Fails on
    /// the first ID that is not known.
    #[verifier::loop_isolation(false)]
    pub fn package_ixs(&self, package_ids: &Vec<PackageId>) -> (r: Result<Vec<usize>, Error>)
        requires
            self.wf(),
        ensures
            match r {
                Ok(ixs) => first_unknown(self@, package_ids@, 0) is None && indices_of(
                    self@,
                    ixs@,
                    package_ids@,
                ),
                Err(e) => first_unknown(self@, package_ids@, 0) matches Some(id) && e@
                    == crate::errors::ErrorView::UnknownPackageId(id),
            },
    {
        let mut ixs: Vec<usize> = Vec::new();
        let mut i: usize = 0;
        while i < package_ids.len()
            invariant
                i <= package_ids.len(),
                ixs.len() == i,
                first_unknown(self@, package_ids@, 0) == first_unknown(self@, package_ids@, i as int),
                forall|k: int|
                    0 <= k < i ==> (#[trigger] ixs[k]) < self@.packages.len()
                        && self@.packages[ixs[k] as int].package.id@ == package_ids[k]@,
            decreases package_ids.len() - i,
        {
            match self.package_ix(&package_ids[i]) {
                Some(ix) => {
                    assert(self@.packages[ix as int].package.id@ == package_ids[i as int]@);
                    ixs.push(ix);
                },
                None => {
                    return Err(Error::UnknownPackageId(package_ids[i].duplicate()));
                },
            }
            i = i + 1;
        }
        Ok(ixs)
    }

    /// Creates a new query over the entire workspace: it starts from the
    /// members of the workspace, in the order of their paths, and walks
    /// forward.
    #[verifier::loop_isolation(false)]
    pub fn query_workspace<'g>(&'g self) -> (r: PackageQuery<'g>)
        requires
            self.wf(),
        ensures
            r.wf(),
            r.graph() == self,
            r.direction() == DependencyDirection::Forward,
            r.seeds().len() == self@.workspace.members.len(),
            forall|k: int|
                0 <= k < r.seeds().len() ==> self@.packages[(#[trigger] r.seeds()[k]) as int].package.id@
                    == self@.workspace.members[k].1,
    {
        let members = self.workspace().members();
        let mut seeds: Vec<usize> = Vec::new();
        let mut k: usize = 0;
        while k < members.len()
            invariant
                k <= members.len(),
                seeds.len() == k,
                forall|j: int|
                    0 <= j < k ==> (#[trigger] seeds[j]) < self@.packages.len()
                        && self@.packages[seeds[j] as int].package.id@
                        == self@.workspace.members[j].1,
            decreases members.len() - k,
        {
            assert(self@.workspace.members[k as int].1 == members[k as int].1@);
            match self.package_ix(&members[k].1) {
                Some(ix) => {
                    seeds.push(ix);
                },
                None => {
                    proof {
                        assert(self@.member_is_package(self@.workspace.members[k as int]));
                        let i = choose|i: int|
                            0 <= i < self@.packages.len() && (#[trigger] self@.packages[i]).package.id@
                                == self@.workspace.members[k as int].1
                                && self@.packages[i].workspace_path == Some(
                                self@.workspace.members[k as int].0,
                            );
                        assert(false);
                    }
                },
            }
            k = k + 1;
        }
        PackageQuery::new(self, seeds, DependencyDirection::Forward)
    }

    /// Creates a new forward query over the members of the workspace with
    /// the given names: for each name the first member that has it, in the
    /// order of the packages. Fails on the first name that no member has.
    #[verifier::loop_isolation(false)]
    pub fn query_workspace_names<'g>(&'g self, names: &Vec<String>) -> (r: Result<
        PackageQuery<'g>,
        Error,
    >)
        requires
            self.wf(),
        ensures
            match r {
                Ok(q) => {
                    &&& first_unknown_name(self@, names@, 0) is None
                    &&& q.wf()
                    &&& q.graph() == self
                    &&& q.direction() == DependencyDirection::Forward
                    &&& q.seeds().len() == names.len()
                    &&& forall|k: int|
                        0 <= k < names.len() ==> first_member_named(
                            self@,
                            (#[trigger] q.seeds()[k]) as int,
                            names[k]@,
                        )
                },
                Err(e) => first_unknown_name(self@, names@, 0) matches Some(name) && e@
                    == crate::errors::ErrorView::UnknownPackageId(name),
            },
    {
        let n = self.packages().len();
        let mut seeds: Vec<usize> = Vec::new();
        let mut k: usize = 0;
        while k < names.len()
            invariant
                k <= names.len(),
                n == self@.packages.len(),
                seeds.len() == k,
                first_unknown_name(self@, names@, 0) == first_unknown_name(self@, names@, k as int),
                forall|j: int|
                    0 <= j < k ==> first_member_named(self@, (#[trigger] seeds[j]) as int, names[j]@),
            decreases names.len() - k,
        {
            let mut found: Option<usize> = None;
            let mut i: usize = 0;
            while i < n && found.is_none()
                invariant
                    i <= n,
                    match found {
                        Some(at) => first_member_named(self@, at as int, names[k as int]@),
                        None => forall|j: int| 0 <= j < i ==> !member_named(self@, j, names[k as int]@),
                    },
                decreases n - i + if found is None { 1int } else { 0int },
            {
                let package = self.package_at(i);
                if package.in_workspace() && crate::text::str_eq(package.name(), names[k].as_str()) {
                    found = Some(i);
                } else {
                    i = i + 1;
                }
            }
            match found {
                Some(at) => {
                    seeds.push(at);
                },
                None => {
                    return Err(Error::UnknownPackageId(PackageId::new(names[k].as_str())));
                },
            }
            k = k + 1;
        }
        Ok(PackageQuery::new(self, seeds, DependencyDirection::Forward))
    }

    /// Creates a new query that returns transitive dependencies of the given packages in the
    /// specified direction.
    ///
    /// Returns an error if any package IDs are unknown.
    pub fn query_directed<'g>(&'g self, package_ids: &Vec<PackageId>, dep_direction: DependencyDirection) -> (r:
        Result<PackageQuery<'g>, Error>)
        requires
            self.wf(),
        ensures
            match r {
                Ok(q) => {
                    &&& first_unknown(self@, package_ids@, 0) is None
                    &&& q.wf()
                    &&& q.graph() == self
                    &&& q.direction() == dep_direction
                    &&& indices_of(self@, q.seeds(), package_ids@)
                },
                Err(e) => first_unknown(self@, package_ids@, 0) matches Some(id) && e@
                    == crate::errors::ErrorView::UnknownPackageId(id),
            },
    {
        match self.package_ixs(package_ids) {
            Ok(ixs) => Ok(PackageQuery::new(self, ixs, dep_direction)),
            Err(e) => Err(e),
        }
    }

    /// Creates a new query that returns transitive dependencies of the given packages.
    ///
    /// Returns an error if any package IDs are unknown.
    pub fn query_forward<'g>(&'g self, package_ids: &Vec<PackageId>) -> (r: Result<
        PackageQuery<'g>,
        Error,
    >)
        requires
            self.wf(),
        ensures
            match r {
                Ok(q) => {
                    &&& first_unknown(self@, package_ids@, 0) is None
                    &&& q.wf()
                    &&& q.graph() == self
                    &&& q.direction() == DependencyDirection::Forward
                    &&& indices_of(self@, q.seeds(), package_ids@)
                },
                Err(e) => first_unknown(self@, package_ids@, 0) matches Some(id) && e@
                    == crate::errors::ErrorView::UnknownPackageId(id),
            },
    {
        self.query_directed(package_ids, DependencyDirection::Forward)
    }

    /// Creates a new query that returns transitive reverse dependencies of the given packages.
    ///
    /// Returns an error if any package IDs are unknown.
    pub fn query_reverse<'g>(&'g self, package_ids: &Vec<PackageId>) -> (r: Result<
        PackageQuery<'g>,
        Error,
    >)
        requires
            self.wf(),
        ensures
            match r {
                Ok(q) => {
                    &&& first_unknown(self@, package_ids@, 0) is None
                    &&& q.wf()
                    &&& q.graph() == self
                    &&& q.direction() == DependencyDirection::Reverse
                    &&& indices_of(self@, q.seeds(), package_ids@)
                },
                Err(e) => first_unknown(self@, package_ids@, 0) matches Some(id) && e@
                    == crate::errors::ErrorView::UnknownPackageId(id),
            },
    {
        self.query_directed(package_ids, DependencyDirection::Reverse)
    }
}

/// Whether no edge leads to the package `v`.
pub open spec fn is_root(edges: Seq<Edge>) -> spec_fn(usize) -> bool {
    |v: usize| forall|e: int| 0 <= e < edges.len() ==> (#[trigger] edges[e]).1 != v
}

impl PackageGraph {
    /// Returns the packages that no package depends on, in the order of
    /// their indices.
    #[verifier::loop_isolation(false)]
    pub fn roots(&self) -> (r: Vec<usize>)
        requires
            self.wf(),
        ensures
            r@ == all_indices(self@.packages.len()).filter(is_root(self@.edges)),
    {
        let n = self.packages().len();
        let ghost indices = all_indices(n as nat);
        let ghost keep = is_root(self@.edges);
        let mut out: Vec<usize> = Vec::new();
        let mut v: usize = 0;
        proof {
            reveal(Seq::filter);
            assert(indices.subrange(0, 0) =~= Seq::<usize>::empty());
        }
        while v < n
            invariant
                v <= n,
                out@ == indices.subrange(0, v as int).filter(keep),
            decreases n - v,
        {
            proof {
                assert(indices.subrange(0, v + 1) =~= indices.subrange(0, v as int).push(v));
                indices.subrange(0, v as int).lemma_filter_push(v, keep);
            }
            let incoming = self.edges_directed(v, DependencyDirection::Reverse);
            proof {
                if incoming.len() == 0 {
                    assert forall|e: int| 0 <= e < self@.edges.len() implies (
                    #[trigger] self@.edges[e]).1 != v by {
                        if self@.edges[e].1 == v {
                            assert(incoming@.contains(self@.edges[e]));
                        }
                    }
                } else {
                    assert(self@.edges.contains(incoming[0]));
                    let e = choose|e: int| 0 <= e < self@.edges.len() && self@.edges[e] == incoming[0];
                    assert(self@.edges[e].1 == v);
                }
            }
            if incoming.len() == 0 {
                out.push(v);
            }
            v = v + 1;
        }
        assert(indices.subrange(0, n as int) =~= indices);
        out
    }
}

/// A visitor that writes the labels of a graph in DOT format.
pub trait PackageDotVisitor {
    /// The label of a package.
    fn visit_package(&self, package: &PackageMetadata) -> String;

    /// The label of a link.
    fn visit_link(&self, link: DependencyLink<'_>) -> String;
}

/// A graph to be written in DOT format: its nodes, each an index with a
/// label, and its edges, each from one index to another with a label.
#[derive(Clone, Debug, PartialEq, Eq)]
pub struct DotGraph {
    pub nodes: Vec<(usize, String)>,
    pub edges: Vec<(usize, usize, String)>,
}

/// The indices `0 .. n`.
pub open spec fn all_indices(n: nat) -> Seq<usize> {
    Seq::new(n, |i: int| i as usize)
}

/// The indices of the nodes of a graph in DOT format.
pub open spec fn dot_ids(nodes: Seq<(usize, String)>) -> Seq<usize> {
    Seq::new(nodes.len(), |i: int| nodes[i].0)
}

/// The ends of the edges of a graph in DOT format.
pub open spec fn dot_ends(edges: Seq<(usize, usize, String)>) -> Seq<(usize, usize)> {
    Seq::new(edges.len(), |i: int| (edges[i].0, edges[i].1))
}

/// Whether an edge joins two marked packages and was followed.
pub open spec fn is_shown(marks: Seq<bool>, enabled: Seq<bool>) -> spec_fn(Edge) -> bool {
    |edge: Edge|
        flag_set(marks, edge.0 as int) && flag_set(marks, edge.1 as int) && flag_set(
            enabled,
            edge.2 as int,
        )
}

/// The ends of edges.
pub open spec fn ends_of(edges: Seq<Edge>) -> Seq<(usize, usize)> {
    Seq::new(edges.len(), |i: int| (edges[i].0, edges[i].1))
}

impl<'g> PackageSet<'g> {
    /// The indices of the packages of the set, in rising order: what a
    /// graph in DOT format shows as its nodes.
    pub open spec fn shown_ids(&self) -> Seq<usize> {
        all_indices(self.graph()@.packages.len()).filter(is_marked(self.included()))
    }

    /// The edges that a graph in DOT format shows: those that were
    /// followed, between packages of the set, by edge index.
    pub open spec fn shown_edges(&self) -> Seq<Edge> {
        self.graph()@.edges.filter(is_shown(self.included(), self.enabled()))
    }

    /// The packages of this set and the links between them that were
    /// followed, as a graph in DOT format. The visitor gives the labels.
    #[verifier::loop_isolation(false)]
    pub fn display_dot<V: PackageDotVisitor>(&self, visitor: &V) -> (r: DotGraph)
        requires
            self.wf(),
        ensures
            dot_ids(r.nodes@) == self.shown_ids(),
            dot_ends(r.edges@) == ends_of(self.shown_edges()),
    {
        let n = self.included.len();
        let ghost keep = is_marked(self.included@);
        let ghost indices = all_indices(n as nat);
        let mut nodes: Vec<(usize, String)> = Vec::new();
        let mut i: usize = 0;
        proof {
            reveal(Seq::filter);
            assert(indices.subrange(0, 0) =~= Seq::<usize>::empty());
            assert(dot_ids(nodes@) =~= Seq::<usize>::empty());
        }
        while i < n
            invariant
                i <= n,
                dot_ids(nodes@) == indices.subrange(0, i as int).filter(keep),
            decreases n - i,
        {
            proof {
                assert(indices.subrange(0, i + 1) =~= indices.subrange(0, i as int).push(i));
                indices.subrange(0, i as int).lemma_filter_push(i, keep);
            }
            if self.included[i] {
                let ghost before = dot_ids(nodes@);
                let label = visitor.visit_package(self.graph.package_at(i));
                nodes.push((i, label));
                assert(dot_ids(nodes@) =~= before.push(i));
            }
            i = i + 1;
        }
        assert(indices.subrange(0, n as int) =~= indices);
        let all = self.graph.all_edges();
        let ghost shown = is_shown(self.included@, self.enabled@);
        let mut edges: Vec<(usize, usize, String)> = Vec::new();
        let ghost mut kept: Seq<Edge> = Seq::empty();
        let mut e: usize = 0;
        proof {
            assert(all@.subrange(0, 0) =~= Seq::<Edge>::empty());
            assert(dot_ends(edges@) =~= ends_of(kept));
        }
        while e < all.len()
            invariant
                e <= all.len(),
                kept == all@.subrange(0, e as int).filter(shown),
                dot_ends(edges@) == ends_of(kept),
            decreases all.len() - e,
        {
            let edge = all[e];
            proof {
                assert(all@.subrange(0, e + 1) =~= all@.subrange(0, e as int).push(edge));
                all@.subrange(0, e as int).lemma_filter_push(edge, shown);
                assert(self.graph@.edges.contains(edge));
            }
            if self.contains_ix(edge.0) && self.contains_ix(edge.1) && crate::petgraph_support::flag_at(
                &self.enabled,
                edge.2,
            ) {
                let ghost before = dot_ends(edges@);
                let label = visitor.visit_link(self.graph.edge_to_link(edge));
                edges.push((edge.0, edge.1, label));
                proof {
                    let old_kept = kept;
                    kept = kept.push(edge);
                    assert(dot_ends(edges@) =~= before.push((edge.0, edge.1)));
                    assert(ends_of(kept) =~= ends_of(old_kept).push((edge.0, edge.1)));
                }
            }
            e = e + 1;
        }
        assert(all@.subrange(0, all@.len() as int) =~= all@);
        DotGraph { nodes, edges }
    }

    /// What a forward query reaches along any link from one package is
    /// what that package depends on.
    pub proof fn lemma_forward_set_is_depends_on(&self, a: usize, v: int)
        requires
            self.wf(),
            a < self.graph()@.packages.len(),
            0 <= v < self.graph()@.packages.len(),
            self.enabled().len() == self.graph()@.links.len(),
            forall|w: int| 0 <= w < self.enabled().len() ==> self.enabled()[w],
            self.holds_reached(seq![a], DependencyDirection::Forward),
        ensures
            self.included()[v] <==> crate::petgraph_support::reachable(
                self.graph()@.edges,
                a as int,
                v,
            ),
    {
        let g = self.graph()@;
        let seeds = seq![a];
        assert forall|e: int| 0 <= e < g.edges.len() implies flag_set(
            self.enabled(),
            (#[trigger] g.edges[e]).2 as int,
        ) by {}
        crate::reach::lemma_reached_is_reachable(g.edges, self.enabled(), a as int, v);
        if reached(g.edges, self.enabled(), DependencyDirection::Forward, seeds, v) {
            let k = choose|k: int|
                0 <= k < seeds.len() && crate::reach::reached_from(
                    g.edges,
                    self.enabled(),
                    DependencyDirection::Forward,
                    (#[trigger] seeds[k]) as int,
                    v,
                );
            assert(seeds[k] == a);
        }
        if crate::reach::reached_from(
            g.edges,
            self.enabled(),
            DependencyDirection::Forward,
            a as int,
            v,
        ) {
            assert(seeds[0] == a);
        }
    }

    /// The nodes that a graph in DOT format shows for a set are the
    /// packages that the set lists in either direction.
    pub proof fn lemma_shown_ids_are_package_ids(&self, direction: DependencyDirection, v: usize)
        requires
            self.wf(),
        ensures
            self.shown_ids().contains(v) <==> self.in_order(direction).contains(v),
    {
        let g = self.graph()@;
        let n = g.packages.len();
        let keep = is_marked(self.included());
        let indices = all_indices(n);
        let order = if direction == DependencyDirection::Forward {
            g.topo
        } else {
            g.topo.reverse()
        };
        assert(is_topological_order(g.topo, n, g.build_edges()));
        if self.shown_ids().contains(v) {
            indices.lemma_filter_contains_rev(keep, v);
            let i = choose|i: int| 0 <= i < indices.filter(keep).len() && indices.filter(keep)[i] == v;
            indices.lemma_filter_pred(keep, i);
            let j = choose|j: int| 0 <= j < indices.len() && indices[j] == v;
            assert(v < n);
            assert(g.topo.contains(v));
            let t = choose|t: int| 0 <= t < g.topo.len() && g.topo[t] == v;
            if direction == DependencyDirection::Forward {
                order.lemma_filter_contains(keep, t);
            } else {
                assert(order[n - 1 - t] == v);
                order.lemma_filter_contains(keep, n - 1 - t);
            }
        }
        if self.in_order(direction).contains(v) {
            order.lemma_filter_contains_rev(keep, v);
            let i = choose|i: int| 0 <= i < order.filter(keep).len() && order.filter(keep)[i] == v;
            order.lemma_filter_pred(keep, i);
            let j = choose|j: int| 0 <= j < order.len() && order[j] == v;
            assert(v < n);
            assert(indices[v as int] == v);
            indices.lemma_filter_contains(keep, v as int);
        }
    }
}

} // verus!
