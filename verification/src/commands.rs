//! What the commands of the command line compute, apart from reading the
//! metadata and printing.

use crate::errors::{Error, ErrorView};
use crate::graph::cargo::{resolved, CargoOptions, CargoOptionsView, CargoSet};
use crate::graph::dependency::opt_platform_view;
use crate::graph::feature::query::{default_filter, query_seeds, FeatureFilter};
use crate::graph::feature::FeatureGraph;
use crate::graph::graph_impl::{PackageGraphView, PackageMetadata};
use crate::graph::assemble::reversed;
use crate::graph::select::{all_indices, is_marked};
use crate::petgraph_support::{flag_set, reachable, Edge};
use crate::reach::reached;
use crate::graph::select::{
    copy_of, first_member_named, is_unknown_name_error, FilterOptions, Kind, PackageQuery, PackageSet,
};
use crate::graph::{DependencyDirection, PackageGraph};
use crate::metadata::PackageId;
use crate::target_spec::evaluator::{EvalError, EvalErrorView};
use crate::target_spec::platform::{platform_of, Platform, TargetFeatures, TargetFeaturesView};
use crate::text::str_eq;
use vstd::prelude::*;

verus! {

/// The platform that a triple names, or else the current one. Every
/// target feature is taken to be present on the platform of a triple.
pub open spec fn platform_for(triple: Option<String>, current: Option<Platform>) -> Result<
    Option<crate::target_spec::platform::PlatformView>,
    ErrorView,
> {
    match triple {
        Some(t) => match platform_of(t@, TargetFeaturesView::All) {
            Some(p) => Ok(Some(p)),
            None => Err(
                ErrorView::TargetEvalError { platform: t@, err: EvalErrorView::TargetNotFound },
            ),
        },
        None => Ok(opt_platform_view(current)),
    }
}

/// Finds the platform that a triple names, or else the current one.
pub fn triple_to_platform(triple: &Option<String>, current: &Option<Platform>) -> (r: Result<
    Option<Platform>,
    Error,
>)
    ensures
        match r {
            Ok(p) => platform_for(*triple, *current) == Ok::<
                Option<crate::target_spec::platform::PlatformView>,
                ErrorView,
            >(opt_platform_view(p)),
            Err(e) => platform_for(*triple, *current) == Err::<
                Option<crate::target_spec::platform::PlatformView>,
                ErrorView,
            >(e@),
        },
{
    match triple {
        Some(t) => match Platform::new(t.as_str(), TargetFeatures::All) {
            Some(p) => Ok(Some(p)),
            None => Err(
                Error::TargetEvalError { platform: t.clone(), err: EvalError::TargetNotFound },
            ),
        },
        None => match current {
            Some(p) => Ok(Some(p.duplicate())),
            None => Ok(None),
        },
    }
}

/// The options of the command that resolves features as Cargo does.
#[derive(Clone, Debug, PartialEq, Eq)]
pub struct ResolveCargoOptions {
    /// The members of the workspace to start from (default: all of them)
    pub packages: Vec<String>,
    /// Include dev-dependencies of initial packages (default: false)
    pub include_dev: bool,
    /// Evaluate against target platform triple (default: current platform)
    pub target_platform: Option<String>,
    /// Evaluate against host platform triple (default: current platform)
    pub host_platform: Option<String>,
}

/// Whether the packages are the members of the workspace, or for each
/// name the first member that has it, in the order of the packages.
pub open spec fn starts_at(names: Seq<String>, g: PackageGraphView, from: Seq<usize>) -> bool {
    if names.len() == 0 {
        &&& from.len() == g.workspace.members.len()
        &&& forall|k: int|
            0 <= k < from.len() ==> (#[trigger] from[k]) < g.packages.len()
                && g.packages[from[k] as int].package.id@ == g.workspace.members[k].1
    } else {
        &&& from.len() == names.len()
        &&& forall|k: int|
            0 <= k < from.len() ==> first_member_named(g, (#[trigger] from[k]) as int, names[k]@)
    }
}

impl ResolveCargoOptions {
    /// The options for the resolver that these options stand for, if the
    /// triples name platforms.
    pub open spec fn options(&self, current: Option<Platform>) -> Result<CargoOptionsView, ErrorView> {
        match platform_for(self.target_platform, current) {
            Err(e) => Err(e),
            Ok(target) => match platform_for(self.host_platform, current) {
                Err(e) => Err(e),
                Ok(host) => Ok(
                    CargoOptionsView {
                        version: crate::graph::cargo::CargoResolverVersion::V1,
                        include_dev: self.include_dev,
                        host_platform: host,
                        target_platform: target,
                    },
                ),
            },
        }
    }

    /// Resolves the default features of the packages that the options
    /// name, and of what they depend on, as Cargo does.
    ///
    /// Fails where a triple names no platform, where a name is that of no
    /// member of the workspace, and where a target specification of the
    /// graph cannot be evaluated.
    pub fn resolve<'a, 'g>(&self, graph: &'a FeatureGraph<'g>, current: Option<Platform>) -> (r: Result<
        CargoSet<'a>,
        Error,
    >)
        requires
            graph.wf(),
        ensures
            match r {
                Ok(set) => {
                    &&& set.wf()
                    &&& set.target().graph() == graph
                    &&& set.host().marks() == set.target().marks()
                    &&& self.options(current) is Ok
                    &&& exists|from: Seq<usize>| #[trigger]
                        starts_at(self.packages@, graph.package_graph()@, from) && resolved(
                            graph@,
                            query_seeds(
                                graph.package_graph()@.packages,
                                from,
                                FeatureFilter::Default,
                                from.len() as int,
                            ),
                            self.options(current)->Ok_0,
                            set.target().marks(),
                        )
                },
                Err(e) => match self.options(current) {
                    Err(o) => e@ == o,
                    Ok(opts) => is_unknown_name_error(graph.package_graph()@, self.packages@, e)
                        || crate::graph::cargo::enabled_labels(
                        graph@.labels,
                        opts,
                        graph@.labels.len() as int,
                    ) == Err::<Seq<bool>, ErrorView>(e@),
                },
            },
    {
        let target_platform = match triple_to_platform(&self.target_platform, &current) {
            Ok(p) => p,
            Err(e) => {
                return Err(e);
            },
        };
        let host_platform = match triple_to_platform(&self.host_platform, &current) {
            Ok(p) => p,
            Err(e) => {
                return Err(e);
            },
        };
        let cargo_opts = CargoOptions::new().with_dev_deps(self.include_dev).with_target_platform(
            target_platform,
        ).with_host_platform(host_platform);
        let package_query = if self.packages.len() == 0 {
            graph.packages().query_workspace()
        } else {
            match graph.packages().query_workspace_names(&self.packages) {
                Ok(q) => q,
                Err(e) => {
                    return Err(e);
                },
            }
        };
        let filter = default_filter();
        let query = graph.query_packages(&package_query, &filter);
        assert(starts_at(self.packages@, graph.package_graph()@, package_query.seeds()));
        query.resolve_cargo(&cargo_opts)
    }
}

/// The options that say where a query starts and how it walks.
#[derive(Clone, Debug, PartialEq, Eq)]
pub struct QueryOptions {
    /// The direction to walk in.
    pub direction: DependencyDirection,
    /// The names of the packages to start from (default: the workspace).
    pub roots: Vec<String>,
}

/// The first package with the name, from the index `i` on.
pub open spec fn first_named(g: PackageGraphView, name: Seq<char>, i: int) -> Option<int>
    decreases g.packages.len() - i,
{
    if i < 0 || i >= g.packages.len() {
        None
    } else if g.packages[i].package.name@ == name {
        Some(i)
    } else {
        first_named(g, name, i + 1)
    }
}

/// The first of the names, from the `k`th on, that no package has.
pub open spec fn first_missing_root(g: PackageGraphView, names: Seq<String>, k: int) -> Option<
    Seq<char>,
>
    decreases names.len() - k,
{
    if k < 0 || k >= names.len() {
        None
    } else if first_named(g, names[k]@, 0) is None {
        Some(names[k]@)
    } else {
        first_missing_root(g, names, k + 1)
    }
}

impl QueryOptions {
    /// Whether a query from the seeds in the direction is the one that the
    /// options stand for: from the members of the workspace, forward, or
    /// from the first package of each of the given names, in the given
    /// direction.
    pub open spec fn starts(
        &self,
        g: PackageGraphView,
        seeds: Seq<usize>,
        direction: DependencyDirection,
    ) -> bool {
        if self.roots.len() == 0 {
            direction == DependencyDirection::Forward && starts_at(self.roots@, g, seeds)
        } else {
            &&& direction == self.direction
            &&& seeds.len() == self.roots.len()
            &&& forall|k: int|
                0 <= k < self.roots.len() ==> first_named(g, self.roots[k]@, 0) == Some(
                    (#[trigger] seeds[k]) as int,
                )
        }
    }

    /// Constructs the query that the options stand for: from the members
    /// of the workspace, forward, or from the first package of each of the
    /// given names, in the given direction.
    ///
    /// Fails on the first name that no package has.
    #[verifier::loop_isolation(false)]
    pub fn apply<'g>(&self, graph: &'g PackageGraph) -> (r: Result<PackageQuery<'g>, Error>)
        requires
            graph.wf(),
        ensures
            match r {
                Ok(q) => {
                    &&& q.wf()
                    &&& q.graph() == graph
                    &&& first_missing_root(graph@, self.roots@, 0) is None
                    &&& self.starts(graph@, q.seeds(), q.direction())
                },
                Err(e) => first_missing_root(graph@, self.roots@, 0) matches Some(name) && e@
                    == ErrorView::UnknownPackageId(name),
            },
    {
        if self.roots.len() == 0 {
            return Ok(graph.query_workspace());
        }
        let n = graph.packages().len();
        let mut seeds: Vec<usize> = Vec::new();
        let mut k: usize = 0;
        while k < self.roots.len()
            invariant
                k <= self.roots.len(),
                seeds.len() == k,
                first_missing_root(graph@, self.roots@, 0) == first_missing_root(
                    graph@,
                    self.roots@,
                    k as int,
                ),
                forall|j: int|
                    0 <= j < k ==> first_named(graph@, self.roots[j]@, 0) == Some(
                        (#[trigger] seeds[j]) as int,
                    ) && seeds[j] < n,
            decreases self.roots.len() - k,
        {
            let mut found: Option<usize> = None;
            let mut i: usize = 0;
            while i < n && found.is_none()
                invariant
                    i <= n,
                    match found {
                        Some(at) => first_named(graph@, self.roots[k as int]@, 0) == Some(at as int)
                            && at < n,
                        None => first_named(graph@, self.roots[k as int]@, 0) == first_named(
                            graph@,
                            self.roots[k as int]@,
                            i as int,
                        ),
                    },
                decreases n - i + if found is None { 1int } else { 0int },
            {
                if str_eq(graph.package_at(i).name(), self.roots[k].as_str()) {
                    found = Some(i);
                } else {
                    i = i + 1;
                }
            }
            match found {
                Some(at) => {
                    seeds.push(at);
                },
                None => {
                    return Err(Error::UnknownPackageId(PackageId::new(self.roots[k].as_str())));
                },
            }
            k = k + 1;
        }
        Ok(PackageQuery::new(graph, seeds, self.direction))
    }
}

/// The options of the command that selects packages.
#[derive(Clone, Debug, PartialEq, Eq)]
pub struct CmdSelectOptions {
    pub filter_opts: FilterOptions,
    /// Output results in reverse topological order (default: forward)
    pub output_direction: DependencyDirection,
    /// Save selection graph in .dot format
    pub output_dot: Option<String>,
    pub query_opts: QueryOptions,
}

/// Whether a link leads from a package of the workspace to the package
/// `p`.
pub open spec fn has_workspace_parent(g: PackageGraphView, p: int) -> bool {
    exists|e: int|
        0 <= e < g.edges.len() && (#[trigger] g.edges[e]).1 == p && g.packages[g.edges[e].0 as int].workspace_path
            is Some
}

/// Whether the command shows a package: all of them, those of the
/// workspace, those outside it, or those outside it that a package of the
/// workspace depends on directly.
pub open spec fn is_selected(g: PackageGraphView, kind: Kind) -> spec_fn(usize) -> bool {
    |p: usize|
        match kind {
            Kind::All => true,
            Kind::Workspace => g.packages[p as int].workspace_path is Some,
            Kind::DirectThirdParty => g.packages[p as int].workspace_path is None
                && has_workspace_parent(g, p as int),
            Kind::ThirdParty => g.packages[p as int].workspace_path is None,
        }
}

impl CmdSelectOptions {
    /// Returns true if the command shows the package at the index.
    #[verifier::loop_isolation(false)]
    pub fn shows(&self, graph: &PackageGraph, p: usize) -> (r: bool)
        requires
            graph.wf(),
            p < graph@.packages.len(),
        ensures
            r == is_selected(graph@, self.filter_opts.kind)(p),
    {
        let package = graph.package_at(p);
        let in_workspace = package.in_workspace();
        match self.filter_opts.kind {
            Kind::All => true,
            Kind::Workspace => in_workspace,
            Kind::ThirdParty => !in_workspace,
            Kind::DirectThirdParty => {
                if in_workspace {
                    return false;
                }
                let ghost g = graph@;
                let edges = graph.edges_directed(p, DependencyDirection::Reverse);
                let mut i: usize = 0;
                while i < edges.len()
                    invariant
                        i <= edges.len(),
                        forall|k: int|
                            0 <= k < i ==> g.packages[(#[trigger] edges[k]).0 as int].workspace_path
                                is None,
                    decreases edges.len() - i,
                {
                    proof {
                        assert(g.edges.contains(edges[i as int]));
                        let e = choose|e: int| 0 <= e < g.edges.len() && g.edges[e] == edges[i as int];
                        assert(g.edges[e].0 < g.packages.len());
                    }
                    if graph.package_at(edges[i].0).in_workspace() {
                        return true;
                    }
                    i = i + 1;
                }
                proof {
                    if has_workspace_parent(g, p as int) {
                        let e = choose|e: int|
                            0 <= e < g.edges.len() && (#[trigger] g.edges[e]).1 == p
                                && g.packages[g.edges[e].0 as int].workspace_path is Some;
                        assert(edges@.contains(g.edges[e]));
                        let k = choose|k: int| 0 <= k < edges.len() && edges[k] == g.edges[e];
                        assert(g.packages[edges[k].0 as int].workspace_path is None);
                    }
                }
                false
            },
        }
    }

    /// Returns the packages that the command prints: those that its
    /// query reaches along the links that its filter follows, as far as the
    /// command shows them, in the direction of the output.
    ///
    /// Fails on the first name of a root that no package has.
    #[verifier::loop_isolation(false)]
    pub fn select<'g>(&self, graph: &'g PackageGraph) -> (r: Result<(PackageSet<'g>, Vec<usize>), Error>)
        requires
            graph.wf(),
        ensures
            match r {
                Ok((set, shown)) => {
                    &&& set.wf()
                    &&& set.graph() == graph
                    &&& first_missing_root(graph@, self.query_opts.roots@, 0) is None
                    &&& exists|seeds: Seq<usize>, direction: DependencyDirection| #[trigger]
                        self.query_opts.starts(graph@, seeds, direction) && set.holds_reached(
                            seeds,
                            direction,
                        )
                    &&& set.enabled().len() == graph@.links.len()
                    &&& forall|e: int|
                        0 <= e < graph@.edges.len() ==> set.enabled()[(
                        #[trigger] graph@.edges[e]).2 as int] == self.filter_opts.accepts(
                            graph@.link_at(graph@.edges[e]),
                        )
                    &&& shown@ == set.in_order(self.output_direction).filter(
                        is_selected(graph@, self.filter_opts.kind),
                    )
                },
                Err(e) => first_missing_root(graph@, self.query_opts.roots@, 0) matches Some(name)
                    && e@ == ErrorView::UnknownPackageId(name),
            },
    {
        let query = match self.query_opts.apply(graph) {
            Ok(q) => q,
            Err(e) => {
                return Err(e);
            },
        };
        let ghost seeds = query.seeds();
        let ghost direction = query.direction();
        let set = query.resolve_with(&self.filter_opts);
        assert(self.query_opts.starts(graph@, seeds, direction) && set.holds_reached(
            seeds,
            direction,
        ));
        let ixs = set.package_ixs(self.output_direction);
        let ghost keep = is_selected(graph@, self.filter_opts.kind);
        let mut shown: Vec<usize> = Vec::new();
        let mut i: usize = 0;
        proof {
            reveal(Seq::filter);
            assert(ixs@.subrange(0, 0) =~= Seq::<usize>::empty());
        }
        while i < ixs.len()
            invariant
                i <= ixs.len(),
                shown@ == ixs@.subrange(0, i as int).filter(keep),
            decreases ixs.len() - i,
        {
            proof {
                assert(ixs@.subrange(0, i + 1) =~= ixs@.subrange(0, i as int).push(ixs[i as int]));
                ixs@.subrange(0, i as int).lemma_filter_push(ixs[i as int], keep);
            }
            if self.shows(graph, ixs[i]) {
                shown.push(ixs[i]);
            }
            i = i + 1;
        }
        assert(ixs@.subrange(0, ixs@.len() as int) =~= ixs@);
        Ok((set, shown))
    }
}

/// The options of the command that counts what each package alone
/// brings in.
#[derive(Clone, Debug, PartialEq, Eq)]
pub struct SubtreeSizeOptions {
    pub filter_opts: FilterOptions,
    /// The root packages to start the selection from
    pub root: Option<String>,
}

/// Whether the links with a flag are those that the filter follows, and
/// the marks are those of the packages that the seeds reach forward along
/// them.
pub open spec fn selects(
    g: PackageGraphView,
    filter: FilterOptions,
    seeds: Seq<usize>,
    marks: Seq<bool>,
    enabled: Seq<bool>,
) -> bool {
    &&& enabled.len() == g.links.len()
    &&& forall|e: int|
        0 <= e < g.edges.len() ==> enabled[(#[trigger] g.edges[e]).2 as int] == filter.accepts(
            g.link_at(g.edges[e]),
        )
    &&& forall|v: int|
        0 <= v < marks.len() ==> (marks[v] <==> reached(
            g.edges,
            enabled,
            DependencyDirection::Forward,
            seeds,
            v,
        ))
}

/// Whether the marks are those of the packages that the seeds reach
/// forward along the links that the filter follows.
pub open spec fn is_selection(
    g: PackageGraphView,
    filter: FilterOptions,
    seeds: Seq<usize>,
    marks: Seq<bool>,
) -> bool {
    &&& marks.len() == g.packages.len()
    &&& exists|enabled: Seq<bool>| #[trigger] selects(g, filter, seeds, marks, enabled)
}

/// Whether a link shows that its end is not brought in by one package
/// alone: the link is not for tests alone, it comes from a package outside
/// the subtree or from one that is itself not brought in alone, and, where
/// a root is given, the root depends on the package that the link comes
/// from.
pub open spec fn blocks(
    g: PackageGraphView,
    marks: Seq<bool>,
    shared: Seq<bool>,
    root: Option<usize>,
    edge: Edge,
) -> bool {
    &&& !g.links[edge.2 as int].dev_only()
    &&& !flag_set(marks, edge.0 as int) || flag_set(shared, edge.0 as int)
    &&& root matches Some(r) ==> reachable(g.edges, r as int, edge.0 as int)
}

/// Whether some link into the package `d` blocks it.
pub open spec fn is_blocked(
    g: PackageGraphView,
    marks: Seq<bool>,
    shared: Seq<bool>,
    root: Option<usize>,
    d: usize,
) -> bool {
    exists|e: int|
        0 <= e < g.edges.len() && (#[trigger] g.edges[e]).1 == d && blocks(
            g,
            marks,
            shared,
            root,
            g.edges[e],
        )
}

/// What is known of a subtree after some of its packages: which are
/// shared with others, and which the package at the top alone brings in.
pub struct Tally {
    pub shared: Seq<bool>,
    pub unique: Seq<usize>,
}

/// What is known of the subtree of the package `p` after the first `n`
/// packages of its order: a package is shared where a link blocks it, and
/// else `p` alone brings it in.
pub open spec fn tally(
    g: PackageGraphView,
    p: usize,
    marks: Seq<bool>,
    order: Seq<usize>,
    root: Option<usize>,
    n: int,
) -> Tally
    decreases n,
{
    if n <= 0 {
        Tally { shared: Seq::new(g.packages.len(), |i: int| false), unique: Seq::empty() }
    } else {
        let before = tally(g, p, marks, order, root, n - 1);
        let d = order[n - 1];
        if d == p {
            before
        } else if is_blocked(g, marks, before.shared, root, d) {
            Tally { shared: before.shared.update(d as int, true), unique: before.unique }
        } else {
            Tally { shared: before.shared, unique: before.unique.push(d) }
        }
    }
}

/// What the package `p` alone brings in: the packages of its subtree, in
/// their order, that no link blocks.
pub open spec fn unique_in_subtree(
    g: PackageGraphView,
    filter: FilterOptions,
    p: usize,
    root: Option<usize>,
    unique: Seq<usize>,
) -> bool {
    exists|marks: Seq<bool>| #[trigger]
        is_selection(g, filter, seq![p], marks) && unique == tally(
            g,
            p,
            marks,
            g.topo.filter(is_marked(marks)),
            root,
            g.topo.filter(is_marked(marks)).len() as int,
        ).unique
}

/// The package that the selection starts from, if one is named: the first
/// of that name.
pub open spec fn root_of(g: PackageGraphView, root: Option<String>) -> Option<usize> {
    match root {
        Some(name) => match first_named(g, name@, 0) {
            Some(i) => Some(i as usize),
            None => None,
        },
        None => None,
    }
}

impl SubtreeSizeOptions {
    /// For each package of the selection, the packages that it alone
    /// brings in. The selection is what the root reaches, or else what the
    /// workspace reaches, along the links that the filter follows.
    ///
    /// Fails where no package has the name of the root.
    #[verifier::loop_isolation(false)]
    pub fn unique_deps(&self, graph: &PackageGraph) -> (r: Result<Vec<(usize, Vec<usize>)>, Error>)
        requires
            graph.wf(),
        ensures
            match r {
                Ok(list) => {
                    &&& self.root matches Some(name) ==> first_named(graph@, name@, 0) is Some
                    &&& exists|seeds: Seq<usize>, marks: Seq<bool>|
                        {
                            &&& match self.root {
                                Some(name) => seeds == seq![root_of(graph@, self.root)->0],
                                None => starts_at(Seq::<String>::empty(), graph@, seeds),
                            }
                            &&& #[trigger] is_selection(graph@, self.filter_opts, seeds, marks)
                            &&& list.len() == graph@.topo.filter(is_marked(marks)).len()
                            &&& forall|i: int|
                                0 <= i < list.len() ==> (#[trigger] list[i]).0
                                    == graph@.topo.filter(is_marked(marks))[i]
                        }
                    &&& forall|i: int|
                        0 <= i < list.len() ==> unique_in_subtree(
                            graph@,
                            self.filter_opts,
                            (#[trigger] list[i]).0,
                            root_of(graph@, self.root),
                            list[i].1@,
                        )
                    &&& forall|i: int, j: int|
                        0 <= i < list.len() && 0 <= j < list[i].1.len() ==> (#[trigger] list[i].1[j])
                            < graph@.packages.len() && list[i].0 < graph@.packages.len()
                },
                Err(e) => self.root matches Some(name) && first_named(graph@, name@, 0) is None
                    && e@ == ErrorView::UnknownPackageId(name@),
            },
    {
        let ghost g = graph@;
        let query_opts = QueryOptions {
            direction: DependencyDirection::Forward,
            roots: match &self.root {
                Some(name) => {
                    let mut roots: Vec<String> = Vec::new();
                    roots.push(name.clone());
                    roots
                },
                None => Vec::new(),
            },
        };
        proof {
            reveal_with_fuel(first_missing_root, 3);
        }
        let query = match query_opts.apply(graph) {
            Ok(q) => q,
            Err(e) => {
                return Err(e);
            },
        };
        let root: Option<usize> = match &self.root {
            Some(_) => {
                assert(first_named(g, query_opts.roots[0]@, 0) == Some(query.seeds()[0] as int));
                Some(query.starts_from()[0])
            },
            None => None,
        };
        assert(root == root_of(g, self.root));
        let ghost seeds = query.seeds();
        assert(self.root is Some ==> seeds =~= seq![root->0]);
        let selection = query.resolve_with(&self.filter_opts);
        let ghost selected = selection.included();
        assert(is_selection(g, self.filter_opts, seeds, selected)) by {
            assert(selects(g, self.filter_opts, seeds, selected, selection.enabled()));
        }
        let tops = selection.package_ixs(DependencyDirection::Forward);
        let mut dep_cache = graph.new_depends_cache();
        let mut out: Vec<(usize, Vec<usize>)> = Vec::new();
        let n = graph.packages().len();
        let mut t: usize = 0;
        while t < tops.len()
            invariant
                t <= tops.len(),
                out.len() == t,
                dep_cache.wf(),
                dep_cache.graph() == graph,
                forall|i: int| 0 <= i < t ==> (#[trigger] out[i]).0 == tops[i],
                forall|i: int|
                    0 <= i < t ==> unique_in_subtree(
                        g,
                        self.filter_opts,
                        (#[trigger] out[i]).0,
                        root,
                        out[i].1@,
                    ),
                forall|i: int, j: int|
                    0 <= i < t && 0 <= j < out[i].1.len() ==> (#[trigger] out[i].1[j]) < n
                        && out[i].0 < n,
            decreases tops.len() - t,
        {
            let p = tops[t];
            let mut starts: Vec<usize> = Vec::new();
            starts.push(p);
            assert(starts@ =~= seq![p]);
            let subtree = PackageQuery::new(graph, starts, DependencyDirection::Forward).resolve_with(
                &self.filter_opts,
            );
            let ghost marks = subtree.included();
            assert(is_selection(g, self.filter_opts, seq![p], marks)) by {
                assert(selects(g, self.filter_opts, seq![p], marks, subtree.enabled()));
            }
            let order = subtree.package_ixs(DependencyDirection::Forward);
            let mut shared: Vec<bool> = Vec::new();
            let mut k: usize = 0;
            while k < n
                invariant
                    k <= n,
                    shared.len() == k,
                    forall|i: int| 0 <= i < k ==> !shared[i],
                decreases n - k,
            {
                shared.push(false);
                k = k + 1;
            }
            assert(shared@ =~= Seq::new(g.packages.len(), |i: int| false));
            let mut unique: Vec<usize> = Vec::new();
            let mut i: usize = 0;
            while i < order.len()
                invariant
                    i <= order.len(),
                    shared.len() == n,
                    dep_cache.wf(),
                    dep_cache.graph() == graph,
                    (Tally { shared: shared@, unique: unique@ }) == tally(
                        g,
                        p,
                        marks,
                        order@,
                        root,
                        i as int,
                    ),
                    forall|j: int| 0 <= j < unique.len() ==> (#[trigger] unique[j]) < n,
                decreases order.len() - i,
            {
                let d = order[i];
                if d != p {
                    let edges = graph.edges_directed(d, DependencyDirection::Reverse);
                    let mut blocked = false;
                    let mut e: usize = 0;
                    while e < edges.len() && !blocked
                        invariant
                            e <= edges.len(),
                            dep_cache.wf(),
                            dep_cache.graph() == graph,
                            blocked ==> is_blocked(g, marks, shared@, root, d),
                            !blocked ==> forall|x: int|
                                0 <= x < e ==> !blocks(g, marks, shared@, root, #[trigger] edges[x]),
                        decreases edges.len() - e + if blocked { 0int } else { 1int },
                    {
                        let edge = edges[e];
                        proof {
                            assert(g.edges.contains(edge));
                            let o = choose|o: int| 0 <= o < g.edges.len() && g.edges[o] == edge;
                            assert(g.edges[o].0 < g.packages.len() && g.edges[o].2 < g.links.len());
                        }
                        let from = edge.0;
                        let outside = !subtree.contains_ix(from) || shared[from];
                        let mut counts = !graph.link_details(edge.2).dev_only() && outside;
                        if counts {
                            if let Some(r) = root {
                                if !dep_cache.depends_on_ix(r, from) {
                                    counts = false;
                                }
                            }
                        }
                        if counts {
                            blocked = true;
                        } else {
                            e = e + 1;
                        }
                    }
                    proof {
                        if !blocked && is_blocked(g, marks, shared@, root, d) {
                            let o = choose|o: int|
                                0 <= o < g.edges.len() && (#[trigger] g.edges[o]).1 == d && blocks(
                                    g,
                                    marks,
                                    shared@,
                                    root,
                                    g.edges[o],
                                );
                            assert(edges@.contains(g.edges[o]));
                            let x = choose|x: int| 0 <= x < edges.len() && edges[x] == g.edges[o];
                            assert(!blocks(g, marks, shared@, root, edges[x]));
                        }
                    }
                    if blocked {
                        shared.set(d, true);
                    } else {
                        unique.push(d);
                    }
                }
                i = i + 1;
            }
            out.push((p, unique));
            t = t + 1;
        }
        proof {
            assert(tops@ == g.topo.filter(is_marked(selected)));
        }
        Ok(out)
    }
}

/// Whether two packages have the same name.
pub open spec fn same_name(g: PackageGraphView, a: usize, b: usize) -> bool {
    g.packages[a as int].package.name@ == g.packages[b as int].package.name@
}

/// Whether a package of the list with the name of the one at `i` comes
/// before `i`.
pub open spec fn named_before(g: PackageGraphView, list: Seq<usize>, i: int) -> bool {
    exists|j: int| 0 <= j < i && same_name(g, #[trigger] list[j], list[i])
}

/// The packages of the list that have the name of the package `p`.
pub open spec fn namesakes(g: PackageGraphView, list: Seq<usize>, p: usize) -> Seq<usize> {
    list.filter(|q: usize| same_name(g, q, p))
}

/// The groups of packages of the same name among the first `n` of the
/// list: for each name that two or more packages of the list have, the
/// packages that have it, at the place of the first of them.
pub open spec fn duplicates_of(g: PackageGraphView, list: Seq<usize>, n: int) -> Seq<Seq<usize>>
    decreases n,
{
    if n <= 0 {
        Seq::empty()
    } else {
        let before = duplicates_of(g, list, n - 1);
        let group = namesakes(g, list, list[n - 1]);
        if !named_before(g, list, n - 1) && group.len() >= 2 {
            before.push(group)
        } else {
            before
        }
    }
}

/// The models of lists of indices.
pub open spec fn groups_view(v: Seq<Vec<usize>>) -> Seq<Seq<usize>> {
    Seq::new(v.len(), |i: int| v[i]@)
}

/// Finds the packages of a set that have their name in common with
/// another package of the set: the duplicates.
#[verifier::loop_isolation(false)]
#[verifier::rlimit(40)]
pub fn duplicates(set: &PackageSet<'_>) -> (r: Vec<Vec<usize>>)
    requires
        set.wf(),
    ensures
        groups_view(r@) == duplicates_of(
            set.graph()@,
            set.in_order(DependencyDirection::Forward),
            set.in_order(DependencyDirection::Forward).len() as int,
        ),
        forall|i: int, j: int|
            0 <= i < r.len() && 0 <= j < r[i].len() ==> (#[trigger] r[i][j]) < set.graph()@.packages.len(),
{
    let list = set.package_ixs(DependencyDirection::Forward);
    let graph = set.package_graph();
    let ghost g = graph@;
    let mut out: Vec<Vec<usize>> = Vec::new();
    assert(groups_view(out@) =~= duplicates_of(g, list@, 0));
    let mut i: usize = 0;
    while i < list.len()
        invariant
            i <= list.len(),
            groups_view(out@) == duplicates_of(g, list@, i as int),
            forall|a: int, b: int|
                0 <= a < out.len() && 0 <= b < out[a].len() ==> (#[trigger] out[a][b]) < g.packages.len(),
        decreases list.len() - i,
    {
        let name = graph.package_at(list[i]).name();
        let mut before = false;
        let mut j: usize = 0;
        while j < i
            invariant
                j <= i,
                before <==> exists|k: int| 0 <= k < j && same_name(g, #[trigger] list[k], list[i as int]),
            decreases i - j,
        {
            if str_eq(graph.package_at(list[j]).name(), name) {
                before = true;
            }
            j = j + 1;
        }
        let ghost same = |q: usize| same_name(g, q, list[i as int]);
        let mut group: Vec<usize> = Vec::new();
        let mut k: usize = 0;
        proof {
            reveal(Seq::filter);
            assert(list@.subrange(0, 0) =~= Seq::<usize>::empty());
        }
        while k < list.len()
            invariant
                k <= list.len(),
                group@ == list@.subrange(0, k as int).filter(same),
                forall|b: int| 0 <= b < group.len() ==> (#[trigger] group[b]) < g.packages.len(),
            decreases list.len() - k,
        {
            proof {
                assert(list@.subrange(0, k + 1) =~= list@.subrange(0, k as int).push(list[k as int]));
                list@.subrange(0, k as int).lemma_filter_push(list[k as int], same);
            }
            if str_eq(graph.package_at(list[k]).name(), name) {
                group.push(list[k]);
            }
            k = k + 1;
        }
        assert(list@.subrange(0, list@.len() as int) =~= list@);
        if !before && group.len() >= 2 {
            let ghost old_view = groups_view(out@);
            out.push(group);
            assert(groups_view(out@) =~= old_view.push(group@));
        }
        i = i + 1;
    }
    out
}

/// The first place from `i` on that holds a package that brings in
/// fewer than `size` packages, or the end where there is none.
pub open spec fn place_by_size(acc: Seq<(usize, Vec<usize>)>, size: nat, i: int) -> int
    decreases acc.len() - i,
{
    if i < 0 || i >= acc.len() {
        acc.len() as int
    } else if acc[i].1.len() < size {
        i
    } else {
        place_by_size(acc, size, i + 1)
    }
}

/// The first `n` entries of a list, those that bring in more in front.
/// Entries that bring in equally many keep the order that they had: each
/// entry goes behind those before it that bring in as many or more.
pub open spec fn by_size(list: Seq<(usize, Vec<usize>)>, n: int) -> Seq<(usize, Vec<usize>)>
    decreases n,
{
    if n <= 0 || n > list.len() {
        Seq::empty()
    } else {
        let acc = by_size(list, n - 1);
        acc.insert(place_by_size(acc, list[n - 1].1.len() as nat, 0), list[n - 1])
    }
}

/// Where `place_by_size` points, what comes before brings in as many or
/// more, and what is there brings in fewer.
pub proof fn lemma_place_by_size(acc: Seq<(usize, Vec<usize>)>, size: nat, i: int)
    requires
        0 <= i <= acc.len(),
    ensures
        i <= place_by_size(acc, size, i) <= acc.len(),
        forall|k: int| i <= k < place_by_size(acc, size, i) ==> (#[trigger] acc[k]).1.len() >= size,
        place_by_size(acc, size, i) < acc.len() ==> acc[place_by_size(acc, size, i)].1.len() < size,
    decreases acc.len() - i,
{
    if i < acc.len() && acc[i].1.len() >= size {
        lemma_place_by_size(acc, size, i + 1);
    }
}

/// In the order that `by_size` gives, no entry brings in more than an
/// entry before it, and as many entries are there as there were.
pub proof fn lemma_by_size_sorted(list: Seq<(usize, Vec<usize>)>, n: int)
    requires
        0 <= n <= list.len(),
    ensures
        by_size(list, n).len() == n,
        forall|i: int, j: int|
            0 <= i < j < n ==> (#[trigger] by_size(list, n)[i]).1.len() >= (#[trigger] by_size(
                list,
                n,
            )[j]).1.len(),
    decreases n,
{
    if n > 0 {
        lemma_by_size_sorted(list, n - 1);
        let acc = by_size(list, n - 1);
        let x = list[n - 1];
        let p = place_by_size(acc, x.1.len() as nat, 0);
        lemma_place_by_size(acc, x.1.len() as nat, 0);
        let out = by_size(list, n);
        assert(out == acc.insert(p, x));
        assert forall|i: int, j: int| 0 <= i < j < n implies (#[trigger] out[i]).1.len() >= (
        #[trigger] out[j]).1.len() by {
            if j < p {
                assert(out[i] == acc[i] && out[j] == acc[j]);
            } else if j == p {
                assert(out[i] == acc[i]);
            } else if i < p {
                assert(out[i] == acc[i] && out[j] == acc[j - 1]);
            } else if i == p {
                assert(out[j] == acc[j - 1]);
                if j - 1 > p {
                    assert(acc[p].1.len() >= acc[j - 1].1.len());
                }
            } else {
                assert(out[i] == acc[i - 1] && out[j] == acc[j - 1]);
            }
        }
    }
}

/// Puts the entries that bring in more in front; entries that bring in
/// equally many keep their order.
#[verifier::loop_isolation(false)]
pub fn by_decreasing_size(list: Vec<(usize, Vec<usize>)>) -> (r: Vec<(usize, Vec<usize>)>)
    ensures
        r@ == by_size(list@, list.len() as int),
        r.len() == list.len(),
        forall|i: int, j: int|
            0 <= i < j < r.len() ==> (#[trigger] r[i]).1.len() >= (#[trigger] r[j]).1.len(),
{
    let ghost all = list@;
    let n = list.len();
    let mut rest = reversed(list);
    let mut out: Vec<(usize, Vec<usize>)> = Vec::new();
    let mut k: usize = 0;
    while k < n
        invariant
            k <= n,
            n == all.len(),
            rest@ == all.reverse().take(n - k),
            out@ == by_size(all, k as int),
        decreases n - k,
    {
        proof {
            lemma_by_size_sorted(all, k as int);
        }
        let x = rest.pop().unwrap();
        assert(x == all[k as int]);
        assert(rest@ =~= all.reverse().take(n - (k + 1)));
        let size = x.1.len();
        let mut p: usize = 0;
        while p < out.len() && out[p].1.len() >= size
            invariant
                p <= out.len(),
                place_by_size(out@, size as nat, 0) == place_by_size(out@, size as nat, p as int),
            decreases out.len() - p,
        {
            p = p + 1;
        }
        out.insert(p, x);
        k = k + 1;
    }
    proof {
        lemma_by_size_sorted(all, n as int);
    }
    out
}

/// Whether the second graph has no package with the identifier of the
/// package at an index of the first.
pub open spec fn is_missing(from: PackageGraphView, other: PackageGraphView) -> spec_fn(usize) -> bool {
    |i: usize| !other.knows(from.packages[i as int].package.id@)
}

/// The packages of one graph that another graph does not have, by their
/// identifiers: their indices in the first graph, in its order.
pub fn packages_missing(from: &PackageGraph, other: &PackageGraph) -> (r: Vec<usize>)
    requires
        from.wf(),
        other.wf(),
    ensures
        r@ == all_indices(from@.packages.len()).filter(is_missing(from@, other@)),
{
    let n = from.packages().len();
    let ghost keep = is_missing(from@, other@);
    let ghost indices = all_indices(n as nat);
    let mut out: Vec<usize> = Vec::new();
    let mut i: usize = 0;
    proof {
        reveal(Seq::filter);
        assert(indices.subrange(0, 0) =~= Seq::<usize>::empty());
    }
    while i < n
        invariant
            i <= n,
            n == from@.packages.len(),
            from.wf(),
            other.wf(),
            indices == all_indices(n as nat),
            keep == is_missing(from@, other@),
            out@ == indices.subrange(0, i as int).filter(keep),
        decreases n - i,
    {
        proof {
            assert(indices.subrange(0, i + 1) =~= indices.subrange(0, i as int).push(i));
            indices.subrange(0, i as int).lemma_filter_push(i, keep);
        }
        match other.package_ix(from.package_at(i).id()) {
            Some(at) => {
                assert(other@.knows(from@.packages[i as int].package.id@));
            },
            None => {
                out.push(i);
            },
        }
        i = i + 1;
    }
    assert(indices.subrange(0, n as int) =~= indices);
    out
}

} // verus!
