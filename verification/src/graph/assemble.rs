//! Putting a package graph together: the table of packages, the workspace,
//! the edges, and the order of the packages.

use crate::errors::{join2, Error};
use crate::graph::dependency::{opt_string_view, DependencyEdge, DependencyEdgeView};
use crate::graph::graph_impl::{
    edge_has_optional, links_view, packages_view, PackageMetadata, PackageMetadataView,
};
use crate::graph::ingest::{
    build_edge, current_view, edge_accepts_version, edge_exists, edge_of, features_of,
    has_feature, Resolved,
};
use crate::metadata::{Node, NodeDep};
use crate::graph::graph_impl::{in_build, PackageGraph, PackageGraphData, PackageGraphView};
use crate::metadata::Metadata;
use crate::petgraph_support::{
    edges_in_range, edges_of, graph_add_edge, graph_add_node, graph_edge, graph_edge_count,
    graph_edges_directed, graph_new, graph_node_count, graph_toposort, is_acyclic,
    is_topological_order, node_count_of, DependencyDirection, Edge,
};
use crate::target_spec::platform::{Platform, PlatformView};
use petgraph::graph::Graph;
use petgraph::Directed;
use crate::graph::workspace::{
    same_path, sorted_by_path, workspace_path, workspace_path_of, Workspace,
};
use crate::indexmap_support::{
    distinct_names, names_index_of, names_insert, names_len, names_new, names_of,
};
use crate::metadata::{Package, PackageId};
use crate::text::str_eq;
use indexmap::IndexSet;
use std::collections::hash_map::RandomState;
use vstd::prelude::*;

verus! {

/// Whether no two packages have the same identifier.
pub open spec fn ids_distinct(packages: Seq<Package>) -> bool {
    forall|i: int, j: int|
        0 <= i < packages.len() && 0 <= j < packages.len() && i != j ==> (
        #[trigger] packages[i]).id@ != (#[trigger] packages[j]).id@
}

/// Whether a table of names holds the identifiers of the packages, in
/// their order.
pub open spec fn table_of(table: IndexSet<String, RandomState>, packages: Seq<Package>) -> bool {
    &&& names_of(table).len() == packages.len()
    &&& forall|i: int| 0 <= i < packages.len() ==> (#[trigger] names_of(table)[i]) == packages[i].id@
}

/// Builds the table of the identifiers of the packages.
///
/// Fails where two packages have the same identifier.
pub fn index_packages(packages: &Vec<Package>) -> (r: Result<IndexSet<String, RandomState>, Error>)
    ensures
        match r {
            Ok(table) => ids_distinct(packages@) && table_of(table, packages@),
            Err(e) => !ids_distinct(packages@) && e is PackageGraphConstructError,
        },
{
    let mut table = names_new();
    let mut i: usize = 0;
    while i < packages.len()
        invariant
            i <= packages.len(),
            names_of(table).len() == i,
            forall|k: int| 0 <= k < i ==> (#[trigger] names_of(table)[k]) == packages[k].id@,
            forall|k: int, l: int|
                0 <= k < i && 0 <= l < i && k != l ==> (#[trigger] packages[k]).id@ != (
                #[trigger] packages[l]).id@,
        decreases packages.len() - i,
    {
        let ghost before = names_of(table);
        let (at, inserted) = names_insert(&mut table, packages[i].id.repr.clone());
        if !inserted {
            assert(before[at as int] == packages[at as int].id@);
            assert(packages[at as int].id@ == packages[i as int].id@);
            return Err(
                Error::PackageGraphConstructError(
                    join2("duplicate package ID: ", packages[i].id.repr.as_str()),
                ),
            );
        }
        assert forall|k: int, l: int| 0 <= k < i + 1 && 0 <= l < i + 1 && k != l implies (
        #[trigger] packages[k]).id@ != (#[trigger] packages[l]).id@ by {
            if k == i {
                assert(before[l] == packages[l].id@);
            }
            if l == i {
                assert(before[k] == packages[k].id@);
            }
        }
        i = i + 1;
    }
    Ok(table)
}

/// The path in the workspace of the member with the given identifier:
/// none where no package has the identifier, or where the manifest of the
/// package has no directory below the root.
pub open spec fn member_path(packages: Seq<Package>, root: Seq<char>, id: Seq<char>) -> Option<
    Seq<char>,
> {
    if exists|i: int| 0 <= i < packages.len() && (#[trigger] packages[i]).id@ == id {
        let i = choose|i: int| 0 <= i < packages.len() && (#[trigger] packages[i]).id@ == id;
        workspace_path_of(root, packages[i].manifest_path@)
    } else {
        None
    }
}

/// Whether every member is a package with a path in the workspace, and no
/// two members are at the same path.
pub open spec fn members_valid(packages: Seq<Package>, root: Seq<char>, members: Seq<PackageId>) -> bool {
    &&& forall|k: int|
        0 <= k < members.len() ==> member_path(packages, root, (#[trigger] members[k])@) is Some
    &&& forall|k: int, l: int|
        0 <= k < members.len() && 0 <= l < members.len() && k != l ==> !same_path(
            member_path(packages, root, (#[trigger] members[k])@)->0,
            member_path(packages, root, (#[trigger] members[l])@)->0,
        )
}

/// Whether the paths are those of the members: a package has a path when
/// it is a member, and the path is that of the directory of its manifest
/// below the root.
pub open spec fn paths_of_members(
    paths: Seq<Option<String>>,
    packages: Seq<Package>,
    root: Seq<char>,
    members: Seq<PackageId>,
    n: int,
) -> bool {
    &&& paths.len() == packages.len()
    &&& forall|i: int|
        0 <= i < paths.len() ==> ((#[trigger] paths[i]) is Some <==> exists|k: int|
            0 <= k < n && (#[trigger] members[k])@ == packages[i].id@)
    &&& forall|i: int|
        0 <= i < paths.len() && (#[trigger] paths[i]) is Some ==> workspace_path_of(
            root,
            packages[i].manifest_path@,
        ) == Some(paths[i]->0@)
}

/// Whether the members are the packages that have a path, each with its
/// path.
pub open spec fn members_listed(
    members: Seq<(Seq<char>, Seq<char>)>,
    paths: Seq<Option<String>>,
    packages: Seq<Package>,
) -> bool {
    forall|m: (Seq<char>, Seq<char>)| #[trigger]
        members.contains(m) <==> exists|i: int|
            0 <= i < packages.len() && opt_string_view(#[trigger] paths[i]) == Some(m.0)
                && packages[i].id@ == m.1
}

proof fn lemma_member_path(packages: Seq<Package>, root: Seq<char>, i: int)
    requires
        ids_distinct(packages),
        0 <= i < packages.len(),
    ensures
        member_path(packages, root, packages[i].id@) == workspace_path_of(
            root,
            packages[i].manifest_path@,
        ),
{
    let id = packages[i].id@;
    let j = choose|j: int| 0 <= j < packages.len() && (#[trigger] packages[j]).id@ == id;
    assert(j == i);
}

/// Builds the workspace, and with it the path of each package in the
/// workspace.
///
/// Fails where a member is no package, where the manifest of a member has
/// no directory below the root, and where two members are at the same path.
pub fn build_workspace(
    table: &IndexSet<String, RandomState>,
    packages: &Vec<Package>,
    root: &str,
    members: &Vec<PackageId>,
) -> (r: Result<(Workspace, Vec<Option<String>>), Error>)
    requires
        ids_distinct(packages@),
        table_of(*table, packages@),
    ensures
        match r {
            Ok((workspace, paths)) => {
                &&& members_valid(packages@, root@, members@)
                &&& workspace@.root == root@
                &&& sorted_by_path(workspace@.members)
                &&& paths_of_members(paths@, packages@, root@, members@, members.len() as int)
                &&& members_listed(workspace@.members, paths@, packages@)
            },
            Err(e) => !members_valid(packages@, root@, members@) && e is PackageGraphConstructError,
        },
{
    let mut workspace = Workspace::new(root.to_owned());
    let mut paths: Vec<Option<String>> = Vec::new();
    let mut i: usize = 0;
    while i < packages.len()
        invariant
            i <= packages.len(),
            paths.len() == i,
            forall|k: int| 0 <= k < i ==> (#[trigger] paths[k]) is None,
        decreases packages.len() - i,
    {
        paths.push(None);
        i = i + 1;
    }
    let mut k: usize = 0;
    while k < members.len()
        invariant
            k <= members.len(),
            ids_distinct(packages@),
            table_of(*table, packages@),
            workspace@.root == root@,
            sorted_by_path(workspace@.members),
            paths_of_members(paths@, packages@, root@, members@, k as int),
            forall|j: int|
                0 <= j < k ==> member_path(packages@, root@, (#[trigger] members[j])@) is Some,
            forall|j: int, l: int|
                0 <= j < k && 0 <= l < k && j != l ==> !same_path(
                    member_path(packages@, root@, (#[trigger] members[j])@)->0,
                    member_path(packages@, root@, (#[trigger] members[l])@)->0,
                ),
            members_listed(workspace@.members, paths@, packages@),
            forall|i: int|
                0 <= i < paths.len() && (#[trigger] paths[i]) is Some ==> exists|j: int|
                    0 <= j < k && (#[trigger] members[j])@ == packages[i].id@,
        decreases members.len() - k,
    {
        let id = &members[k];
        let ix = match names_index_of(table, id.repr.as_str()) {
            Some(ix) => ix,
            None => {
                assert(member_path(packages@, root@, members[k as int]@) is None) by {
                    if exists|i: int| 0 <= i < packages.len() && (#[trigger] packages[i]).id@ == id@ {
                        let i = choose|i: int|
                            0 <= i < packages.len() && (#[trigger] packages[i]).id@ == id@;
                        assert(names_of(*table)[i] == id@);
                    }
                }
                return Err(
                    Error::PackageGraphConstructError(
                        join2("workspace member not found: ", id.repr.as_str()),
                    ),
                );
            },
        };
        assert(names_of(*table)[ix as int] == packages[ix as int].id@);
        proof {
            lemma_member_path(packages@, root@, ix as int);
        }
        let path = match workspace_path(root, packages[ix].manifest_path.as_str()) {
            Some(path) => path,
            None => {
                return Err(
                    Error::PackageGraphConstructError(
                        join2("workspace member not below the root: ", id.repr.as_str()),
                    ),
                );
            },
        };
        let ghost old_members = workspace@.members;
        let ghost old_paths = paths@;
        let inserted = workspace.insert(path.clone(), id.duplicate());
        if !inserted {
            proof {
                let at = choose|at: int|
                    0 <= at < old_members.len() && same_path((#[trigger] old_members[at]).0, path@);
                let m = old_members[at];
                assert(old_members.contains(m));
                let i = choose|i: int|
                    0 <= i < packages.len() && opt_string_view(#[trigger] old_paths[i]) == Some(m.0)
                        && packages[i].id@ == m.1;
                let j = choose|j: int| 0 <= j < k && (#[trigger] members[j])@ == packages[i].id@;
                lemma_member_path(packages@, root@, i);
                assert(same_path(
                    member_path(packages@, root@, members[j]@)->0,
                    member_path(packages@, root@, members[k as int]@)->0,
                ));
            }
            return Err(
                Error::PackageGraphConstructError(
                    join2("two workspace members at one path: ", id.repr.as_str()),
                ),
            );
        }
        proof {
            if old_paths[ix as int] is Some {
                let m = (old_paths[ix as int]->0@, packages[ix as int].id@);
                assert(old_members.contains(m));
                let at = choose|at: int| 0 <= at < old_members.len() && old_members[at] == m;
                assert(!same_path(old_members[at].0, path@));
                assert(false);
            }
        }
        paths.set(ix, Some(path));
        proof {
            let new_members = workspace@.members;
            assert forall|m: (Seq<char>, Seq<char>)| #[trigger]
                new_members.contains(m) <==> exists|i: int|
                    0 <= i < packages.len() && opt_string_view(#[trigger] paths[i]) == Some(m.0)
                        && packages[i].id@ == m.1 by {
                if new_members.contains(m) {
                    if old_members.contains(m) {
                        let i = choose|i: int|
                            0 <= i < packages.len() && opt_string_view(#[trigger] old_paths[i])
                                == Some(m.0) && packages[i].id@ == m.1;
                        assert(i != ix);
                        assert(opt_string_view(paths[i]) == Some(m.0));
                    } else {
                        assert(opt_string_view(paths[ix as int]) == Some(m.0));
                    }
                }
                if exists|i: int|
                    0 <= i < packages.len() && opt_string_view(#[trigger] paths[i]) == Some(m.0)
                        && packages[i].id@ == m.1 {
                    let i = choose|i: int|
                        0 <= i < packages.len() && opt_string_view(#[trigger] paths[i]) == Some(m.0)
                            && packages[i].id@ == m.1;
                    if i != ix {
                        assert(opt_string_view(old_paths[i]) == Some(m.0));
                    }
                }
            }
            assert forall|i: int| 0 <= i < paths.len() && (#[trigger] paths[i]) is Some implies exists|
                j: int,
            |
                0 <= j < k + 1 && (#[trigger] members[j])@ == packages[i].id@ by {
                if i == ix {
                    assert(members[k as int]@ == packages[i].id@);
                } else {
                    assert(old_paths[i] is Some);
                    let j = choose|j: int| 0 <= j < k && (#[trigger] members[j])@ == packages[i].id@;
                    assert(members[j]@ == packages[i].id@);
                }
            }
            assert forall|i: int| 0 <= i < paths.len() implies ((#[trigger] paths[i]) is Some <==> exists|
                j: int,
            |
                0 <= j < k + 1 && (#[trigger] members[j])@ == packages[i].id@) by {
                if i != ix {
                    assert(paths[i] == old_paths[i]);
                    if exists|j: int| 0 <= j < k + 1 && (#[trigger] members[j])@ == packages[i].id@ {
                        let j = choose|j: int|
                            0 <= j < k + 1 && (#[trigger] members[j])@ == packages[i].id@;
                        assert(j != k);
                        assert(members[j]@ == packages[i].id@);
                    }
                } else {
                    assert(members[k as int]@ == packages[i].id@);
                }
            }
            assert forall|j: int, l: int| 0 <= j < k + 1 && 0 <= l < k + 1 && j != l implies !same_path(
                member_path(packages@, root@, (#[trigger] members[j])@)->0,
                member_path(packages@, root@, (#[trigger] members[l])@)->0,
            ) by {
                if j == k || l == k {
                    let o = if j == k {
                        l
                    } else {
                        j
                    };
                    // The other member is a package with a path among the old ones.
                    assert(member_path(packages@, root@, members[o]@) is Some);
                    let i = choose|i: int|
                        0 <= i < packages.len() && (#[trigger] packages[i]).id@ == members[o]@;
                    lemma_member_path(packages@, root@, i);
                    assert(old_paths[i] is Some) by {
                        assert(members[o]@ == packages[i].id@);
                    }
                    let m = (old_paths[i]->0@, packages[i].id@);
                    assert(opt_string_view(old_paths[i]) == Some(m.0));
                    assert(old_members.contains(m));
                    let at = choose|at: int| 0 <= at < old_members.len() && old_members[at] == m;
                    assert(!same_path(old_members[at].0, path@));
                }
            }
        }
        k = k + 1;
    }
    Ok((workspace, paths))
}

/// The elements of a list in the opposite order.
pub fn reversed<T>(v: Vec<T>) -> (r: Vec<T>)
    ensures
        r@ == v@.reverse(),
{
    let mut rest = v;
    let mut out: Vec<T> = Vec::new();
    while rest.len() > 0
        invariant
            rest.len() + out.len() == v.len(),
            forall|k: int| 0 <= k < rest.len() ==> rest[k] == v[k],
            forall|k: int| 0 <= k < out.len() ==> out[k] == v[v.len() - 1 - k],
        decreases rest.len(),
    {
        let x = rest.pop().unwrap();
        out.push(x);
    }
    assert(out@ =~= v@.reverse());
    out
}

/// Whether the information about the packages is that of the metadata:
/// each package at its index, with its features and the path that it has
/// in the workspace.
pub open spec fn packages_built(
    metas: Seq<PackageMetadata>,
    packages: Seq<Package>,
    paths: Seq<Option<String>>,
) -> bool {
    &&& metas.len() == packages.len()
    &&& forall|i: int|
        0 <= i < metas.len() ==> {
            &&& (#[trigger] metas[i]).rep_ok()
            &&& metas[i]@.wf()
            &&& metas[i]@.package == packages[i]
            &&& metas[i]@.package_ix == i
            &&& metas[i]@.workspace_path == opt_string_view(paths[i])
        }
}

/// Builds the information about each package.
pub fn build_packages(packages: Vec<Package>, paths: Vec<Option<String>>) -> (r: Vec<
    PackageMetadata,
>)
    requires
        packages.len() == paths.len(),
    ensures
        packages_built(r@, packages@, paths@),
{
    let mut rest = packages;
    let mut rest_paths = paths;
    let mut out: Vec<PackageMetadata> = Vec::new();
    while rest.len() > 0
        invariant
            rest.len() == rest_paths.len(),
            rest.len() + out.len() == packages.len(),
            forall|k: int| 0 <= k < rest.len() ==> rest[k] == packages[k] && rest_paths[k] == paths[k],
            forall|k: int|
                0 <= k < out.len() ==> {
                    let i = packages.len() - 1 - k;
                    &&& (#[trigger] out[k]).rep_ok()
                    &&& out[k]@.wf()
                    &&& out[k]@.package == packages[i]
                    &&& out[k]@.package_ix == i
                    &&& out[k]@.workspace_path == opt_string_view(paths[i])
                },
        decreases rest.len(),
    {
        let ix = rest.len() - 1;
        let package = rest.pop().unwrap();
        let path = rest_paths.pop().unwrap();
        out.push(PackageMetadata::new(package, ix, path));
    }
    let r = reversed(out);
    assert forall|i: int| 0 <= i < r.len() implies {
        &&& (#[trigger] r[i]).rep_ok()
        &&& r[i]@.wf()
        &&& r[i]@.package == packages[i]
        &&& r[i]@.package_ix == i
        &&& r[i]@.workspace_path == opt_string_view(paths[i])
    } by {
        assert(r[i] == out[out.len() - 1 - i]);
    }
    r
}

/// A dependency of the resolved graph, behind the identifier of the
/// package that has it.
pub type FlatDep = (Seq<char>, NodeDep);

/// The dependencies of a node.
pub open spec fn node_deps(node: Node) -> Seq<FlatDep> {
    Seq::new(node.deps.len() as nat, |j: int| (node.id@, node.deps[j]))
}

/// The dependencies of the first `n` nodes, one node after the other.
pub open spec fn flat_deps(nodes: Seq<Node>, n: nat) -> Seq<FlatDep>
    decreases n,
{
    if n == 0 {
        Seq::empty()
    } else {
        flat_deps(nodes, (n - 1) as nat) + node_deps(nodes[n - 1])
    }
}

/// Whether a package has the identifier.
pub open spec fn known(packages: Seq<Package>, id: Seq<char>) -> bool {
    exists|i: int| 0 <= i < packages.len() && (#[trigger] packages[i]).id@ == id
}

/// The index of the package with the identifier.
pub open spec fn index_of(packages: Seq<Package>, id: Seq<char>) -> int {
    choose|i: int| 0 <= i < packages.len() && (#[trigger] packages[i]).id@ == id
}

/// What a resolved dependency on a package is matched against.
pub open spec fn resolved_of(dep: NodeDep, to: Package) -> Resolved {
    Resolved { resolved_name: dep.name@, to_name: to.name@, to_version: to.version@ }
}

/// The details of the edge for a resolved dependency of the package
/// `from` on the package `to`.
pub open spec fn link_of(from: Package, dep: NodeDep, to: Package, current: Option<PlatformView>) -> DependencyEdgeView {
    edge_of(from.dependencies@, resolved_of(dep, to), current)
}

/// Whether a resolved dependency can become an edge: both its packages
/// are known, the declarations describe it, a feature stands for it where
/// it is optional, and no dependency before it joins the same packages.
pub open spec fn dep_valid(
    packages: Seq<Package>,
    flat: Seq<FlatDep>,
    k: int,
    current: Option<PlatformView>,
) -> bool {
    let from = packages[index_of(packages, flat[k].0)];
    let to = packages[index_of(packages, flat[k].1.pkg@)];
    let link = link_of(from, flat[k].1, to, current);
    &&& known(packages, flat[k].0)
    &&& known(packages, flat[k].1.pkg@)
    &&& edge_exists(from.dependencies@, resolved_of(flat[k].1, to))
    &&& edge_has_optional(link) ==> has_feature(features_of(from), link.dep_name)
    &&& forall|l: int|
        0 <= l < k ==> !((#[trigger] flat[l]).0 == flat[k].0 && flat[l].1.pkg@ == flat[k].1.pkg@)
}

/// Whether the resolved graph can become the edges of a package graph.
pub open spec fn links_valid(packages: Seq<Package>, nodes: Seq<Node>, current: Option<PlatformView>) -> bool {
    let flat = flat_deps(nodes, nodes.len());
    &&& packages.len() <= u32::MAX
    &&& flat.len() <= u32::MAX
    &&& forall|n: int| 0 <= n < nodes.len() ==> known(packages, (#[trigger] nodes[n]).id@)
    &&& forall|k: int| 0 <= k < flat.len() ==> #[trigger] dep_valid(packages, flat, k, current)
}

/// Whether an edge with its details is that of a resolved dependency: it
/// leads from the package that has the dependency to the package that the
/// dependency names, and its details are at the index `k`.
pub open spec fn link_expected(
    packages: Seq<Package>,
    flat: FlatDep,
    edge: Edge,
    link: DependencyEdgeView,
    k: int,
    current: Option<PlatformView>,
) -> bool {
    &&& edge.0 < packages.len()
    &&& edge.1 < packages.len()
    &&& edge.2 == k
    &&& packages[edge.0 as int].id@ == flat.0
    &&& packages[edge.1 as int].id@ == flat.1.pkg@
    &&& link == link_of(packages[edge.0 as int], flat.1, packages[edge.1 as int], current)
    &&& link.has_kind()
    &&& edge_accepts_version(link, packages[edge.1 as int].version@)
    &&& edge_has_optional(link) ==> has_feature(features_of(packages[edge.0 as int]), link.dep_name)
}

/// Whether the edges and their details are those of the resolved
/// dependencies, in the same order.
pub open spec fn links_built(
    packages: Seq<Package>,
    flat: Seq<FlatDep>,
    edges: Seq<Edge>,
    links: Seq<DependencyEdgeView>,
    current: Option<PlatformView>,
) -> bool {
    &&& edges.len() == flat.len()
    &&& links.len() == flat.len()
    &&& forall|k: int|
        0 <= k < flat.len() ==> link_expected(
            packages,
            #[trigger] flat[k],
            edges[k],
            links[k],
            k,
            current,
        )
}

/// Whether no two edges join the same packages in the same direction.
pub open spec fn no_parallel_edges(edges: Seq<Edge>) -> bool {
    forall|e: int, f: int|
        0 <= e < edges.len() && 0 <= f < edges.len() && e != f ==> !((#[trigger] edges[e]).0 == (
        #[trigger] edges[f]).0 && edges[e].1 == edges[f].1)
}

/// The packages that the information is about.
pub open spec fn declared(metas: Seq<PackageMetadata>) -> Seq<Package> {
    Seq::new(metas.len(), |i: int| metas[i]@.package)
}

proof fn lemma_index_of(packages: Seq<Package>, i: int)
    requires
        ids_distinct(packages),
        0 <= i < packages.len(),
    ensures
        known(packages, packages[i].id@),
        index_of(packages, packages[i].id@) == i,
{
    let id = packages[i].id@;
    let j = choose|j: int| 0 <= j < packages.len() && (#[trigger] packages[j]).id@ == id;
    assert(j == i);
}

/// The dependencies of the first nodes stay where they are when more nodes
/// follow.
proof fn lemma_flat_prefix(nodes: Seq<Node>, m: nat, n: nat)
    requires
        m <= n <= nodes.len(),
    ensures
        flat_deps(nodes, m).len() <= flat_deps(nodes, n).len(),
        forall|k: int| 0 <= k < flat_deps(nodes, m).len() ==> flat_deps(nodes, n)[k] == flat_deps(nodes, m)[k],
    decreases n,
{
    if m < n {
        lemma_flat_prefix(nodes, m, (n - 1) as nat);
    }
}

/// Validity of a dependency looks at the dependencies up to it alone.
proof fn lemma_dep_valid_prefix(
    packages: Seq<Package>,
    a: Seq<FlatDep>,
    b: Seq<FlatDep>,
    k: int,
    current: Option<PlatformView>,
)
    requires
        0 <= k < a.len() <= b.len(),
        forall|l: int| 0 <= l <= k ==> a[l] == b[l],
    ensures
        dep_valid(packages, a, k, current) == dep_valid(packages, b, k, current),
{
}

/// Whether the details of an edge hold an optional declaration.
fn has_optional(edge: &DependencyEdge) -> (r: bool)
    ensures
        r == edge_has_optional(edge@),
{
    let normal = match &edge.normal {
        Some(m) => m.dependency_req.optional.target_features.len() > 0,
        None => false,
    };
    let build = match &edge.build {
        Some(m) => m.dependency_req.optional.target_features.len() > 0,
        None => false,
    };
    let dev = match &edge.dev {
        Some(m) => m.dependency_req.optional.target_features.len() > 0,
        None => false,
    };
    normal || build || dev
}

/// Whether the work on the edges is in order: there is a node for each
/// package, and the edges are those of the dependencies in `flat`, all of
/// them valid.
pub open spec fn links_inv(
    packages: Seq<Package>,
    flat: Seq<FlatDep>,
    g: Graph<(), usize, Directed, u32>,
    links: Seq<DependencyEdge>,
    current: Option<PlatformView>,
) -> bool {
    &&& node_count_of(g) == packages.len()
    &&& links_built(packages, flat, edges_of(g), links_view(links), current)
    &&& no_parallel_edges(edges_of(g))
    &&& forall|k: int| 0 <= k < flat.len() ==> #[trigger] dep_valid(packages, flat, k, current)
}

/// Whether the information is about these packages, and in order.
pub open spec fn metas_of(
    metas: Seq<PackageMetadata>,
    packages: Seq<Package>,
    table: IndexSet<String, RandomState>,
) -> bool {
    &&& ids_distinct(packages)
    &&& table_of(table, packages)
    &&& declared(metas) == packages
    &&& forall|i: int| 0 <= i < metas.len() ==> (#[trigger] metas[i]).rep_ok() && metas[i]@.wf()
}

/// Adds the edge of one resolved dependency of the package at `from`.
#[verifier::loop_isolation(false)]
fn add_link(
    g: &mut Graph<(), usize, Directed, u32>,
    links: &mut Vec<DependencyEdge>,
    table: &IndexSet<String, RandomState>,
    metas: &Vec<PackageMetadata>,
    from: usize,
    dep: &NodeDep,
    current: &Option<Platform>,
    Ghost(flat): Ghost<Seq<FlatDep>>,
) -> (r: Result<(), Error>)
    requires
        metas_of(metas@, declared(metas@), *table),
        from < metas.len(),
        links_inv(declared(metas@), flat, *old(g), old(links)@, current_view(*current)),
    ensures
        match r {
            Ok(()) => flat.len() < u32::MAX && links_inv(
                declared(metas@),
                flat.push((declared(metas@)[from as int].id@, *dep)),
                *final(g),
                final(links)@,
                current_view(*current),
            ),
            Err(e) => (e is PackageGraphConstructError) && (flat.len() >= u32::MAX || !dep_valid(
                declared(metas@),
                flat.push((declared(metas@)[from as int].id@, *dep)),
                flat.len() as int,
                current_view(*current),
            )),
        },
{
    let ghost packages = declared(metas@);
    let ghost next = flat.push((packages[from as int].id@, *dep));
    let ghost k = flat.len() as int;
    let ghost cur = current_view(*current);
    proof {
        lemma_index_of(packages, from as int);
        assert(metas[from as int]@.package == packages[from as int]);
    }
    let to = match names_index_of(table, dep.pkg.repr.as_str()) {
        Some(to) => to,
        None => {
            assert(!known(packages, dep.pkg@)) by {
                if known(packages, dep.pkg@) {
                    let i = choose|i: int|
                        0 <= i < packages.len() && (#[trigger] packages[i]).id@ == dep.pkg@;
                    assert(names_of(*table)[i] == dep.pkg@);
                }
            }
            return Err(
                Error::PackageGraphConstructError(
                    join2("no package data found for dependency: ", dep.pkg.repr.as_str()),
                ),
            );
        },
    };
    proof {
        assert(names_of(*table)[to as int] == packages[to as int].id@);
        lemma_index_of(packages, to as int);
        assert(metas[to as int]@.package == packages[to as int]);
    }
    let out = graph_edges_directed(g, from, DependencyDirection::Forward);
    let mut i: usize = 0;
    while i < out.len()
        invariant
            i <= out.len(),
            forall|l: int| 0 <= l < i ==> (#[trigger] out[l]).1.1 != to,
        decreases out.len() - i,
    {
        if out[i].1.1 == to {
            proof {
                let e = out[i as int].0 as int;
                let edges = edges_of(*g);
                assert(edges[e] == out[i as int].1);
                assert(link_expected(packages, flat[e], edges[e], links_view(links@)[e], e, cur));
                assert(next[e] == flat[e]);
                assert(next[e].0 == next[k].0 && next[e].1.pkg@ == next[k].1.pkg@);
            }
            return Err(
                Error::PackageGraphConstructError(
                    join2("two dependencies on one package: ", dep.pkg.repr.as_str()),
                ),
            );
        }
        i = i + 1;
    }
    let from_package = metas[from].package();
    let to_package = metas[to].package();
    let edge = match build_edge(
        &from_package.dependencies,
        dep.name.as_str(),
        to_package.name.as_str(),
        to_package.version.as_str(),
        current,
    ) {
        Ok(edge) => edge,
        Err(e) => {
            return Err(e);
        },
    };
    if has_optional(&edge) {
        if metas[from].get_feature_idx(edge.dep_name()).is_none() {
            return Err(
                Error::PackageGraphConstructError(
                    join2("no feature for the optional dependency: ", edge.dep_name()),
                ),
            );
        }
    }
    if links.len() >= 0xffff_ffff {
        proof {
            assert(links_view(links@).len() == flat.len());
        }
        return Err(
            Error::PackageGraphConstructError("too many dependencies".to_owned()),
        );
    }
    let ghost old_edges = edges_of(*g);
    let ghost old_links = links_view(links@);
    let weight = links.len();
    links.push(edge);
    graph_add_edge(g, from, to, weight);
    proof {
        let edges = edges_of(*g);
        let new_links = links_view(links@);
        assert(new_links =~= old_links.push(edge@));
        assert(edges == old_edges.push((from, to, weight)));
        assert forall|j: int| 0 <= j < next.len() implies link_expected(
            packages,
            #[trigger] next[j],
            edges[j],
            new_links[j],
            j,
            cur,
        ) by {
            if j < k {
                assert(link_expected(packages, flat[j], old_edges[j], old_links[j], j, cur));
            }
        }
        assert forall|e: int, f: int|
            0 <= e < edges.len() && 0 <= f < edges.len() && e != f implies !((
        #[trigger] edges[e]).0 == (#[trigger] edges[f]).0 && edges[e].1 == edges[f].1) by {
            if e == k || f == k {
                let o = if e == k {
                    f
                } else {
                    e
                };
                if old_edges[o].0 == from && old_edges[o].1 == to {
                    let l = choose|l: int| 0 <= l < out.len() && (#[trigger] out[l]).0 == o;
                    assert(out[l].1 == old_edges[o]);
                }
            } else {
                assert(old_edges[e] == edges[e] && old_edges[f] == edges[f]);
            }
        }
        assert forall|j: int| 0 <= j < next.len() implies #[trigger] dep_valid(
            packages,
            next,
            j,
            cur,
        ) by {
            if j < k {
                assert(dep_valid(packages, flat, j, cur));
                lemma_dep_valid_prefix(packages, flat, next, j, cur);
            } else {
                assert forall|l: int| 0 <= l < k implies !((#[trigger] next[l]).0 == next[k].0
                    && next[l].1.pkg@ == next[k].1.pkg@) by {
                    if next[l].0 == next[k].0 && next[l].1.pkg@ == next[k].1.pkg@ {
                        assert(link_expected(
                            packages,
                            flat[l],
                            old_edges[l],
                            old_links[l],
                            l,
                            cur,
                        ));
                        assert(old_edges[l].0 == from && old_edges[l].1 == to);
                        let m = choose|m: int| 0 <= m < out.len() && (#[trigger] out[m]).0 == l;
                        assert(out[m].1 == old_edges[l]);
                    }
                }
            }
        }
    }
    Ok(())
}

/// A graph with `n` nodes and no edges.
pub(crate) fn graph_with_nodes(n: usize) -> (g: Graph<(), usize, Directed, u32>)
    requires
        n <= u32::MAX,
    ensures
        node_count_of(g) == n,
        edges_of(g) == Seq::<Edge>::empty(),
{
    let mut g = graph_new();
    let mut i: usize = 0;
    while i < n
        invariant
            i <= n <= u32::MAX,
            node_count_of(g) == i,
            edges_of(g) == Seq::<Edge>::empty(),
        decreases n - i,
    {
        graph_add_node(&mut g);
        i = i + 1;
    }
    g
}

/// Builds the edges of the graph from the resolved dependencies.
///
/// Fails where there are more packages or dependencies than the graph can
/// count, where a node or a dependency names a package that is not known,
/// where the declarations of a package do not describe a dependency of
/// it, where no feature stands for an optional dependency, and where two
/// dependencies of a package lead to the same package.
#[verifier::loop_isolation(false)]
pub fn build_links(
    table: &IndexSet<String, RandomState>,
    metas: &Vec<PackageMetadata>,
    nodes: &Vec<Node>,
    current: &Option<Platform>,
) -> (r: Result<(Graph<(), usize, Directed, u32>, Vec<DependencyEdge>), Error>)
    requires
        metas_of(metas@, declared(metas@), *table),
    ensures
        match r {
            Ok((g, links)) => links_valid(declared(metas@), nodes@, current_view(*current))
                && links_inv(
                declared(metas@),
                flat_deps(nodes@, nodes.len() as nat),
                g,
                links@,
                current_view(*current),
            ),
            Err(e) => (e is PackageGraphConstructError) && !links_valid(
                declared(metas@),
                nodes@,
                current_view(*current),
            ),
        },
{
    let ghost packages = declared(metas@);
    let ghost cur = current_view(*current);
    let ghost all = flat_deps(nodes@, nodes.len() as nat);
    let n = metas.len();
    if n > 0xffff_ffff {
        return Err(Error::PackageGraphConstructError("too many packages".to_owned()));
    }
    let mut g = graph_with_nodes(n);
    let mut links: Vec<DependencyEdge> = Vec::new();
    assert(links_view(links@) =~= Seq::empty());
    let mut ni: usize = 0;
    while ni < nodes.len()
        invariant
            ni <= nodes.len(),
            flat_deps(nodes@, ni as nat).len() <= u32::MAX,
            links_inv(packages, flat_deps(nodes@, ni as nat), g, links@, cur),
            forall|m: int| 0 <= m < ni ==> known(packages, (#[trigger] nodes[m]).id@),
        decreases nodes.len() - ni,
    {
        let node = &nodes[ni];
        let ghost base = flat_deps(nodes@, ni as nat);
        proof {
            lemma_flat_prefix(nodes@, (ni + 1) as nat, nodes.len() as nat);
        }
        let from = match names_index_of(table, node.id.repr.as_str()) {
            Some(from) => from,
            None => {
                assert(!known(packages, nodes[ni as int].id@)) by {
                    if known(packages, node.id@) {
                        let i = choose|i: int|
                            0 <= i < packages.len() && (#[trigger] packages[i]).id@ == node.id@;
                        assert(names_of(*table)[i] == node.id@);
                    }
                }
                return Err(
                    Error::PackageGraphConstructError(
                        join2("no package data found for node: ", node.id.repr.as_str()),
                    ),
                );
            },
        };
        assert(names_of(*table)[from as int] == packages[from as int].id@);
        assert(known(packages, nodes[ni as int].id@));
        let mut j: usize = 0;
        assert(base + node_deps(*node).subrange(0, 0) =~= base);
        while j < node.deps.len()
            invariant
                j <= node.deps.len(),
                (base + node_deps(*node).subrange(0, j as int)).len() <= u32::MAX,
                links_inv(packages, base + node_deps(*node).subrange(0, j as int), g, links@, cur),
            decreases node.deps.len() - j,
        {
            let ghost flat = base + node_deps(*node).subrange(0, j as int);
            let ghost next = flat.push((packages[from as int].id@, node.deps[j as int]));
            assert(next =~= base + node_deps(*node).subrange(0, j + 1));
            match add_link(&mut g, &mut links, table, metas, from, &node.deps[j], current, Ghost(flat)) {
                Ok(()) => {},
                Err(e) => {
                    proof {
                        let k = flat.len() as int;
                        assert(flat_deps(nodes@, (ni + 1) as nat) =~= base + node_deps(*node));
                        assert(k < all.len());
                        if flat.len() < u32::MAX {
                            assert forall|l: int| 0 <= l <= k implies next[l] == all[l] by {
                                assert(next[l] == flat_deps(nodes@, (ni + 1) as nat)[l]);
                            }
                            lemma_dep_valid_prefix(packages, next, all, k, cur);
                        }
                    }
                    return Err(e);
                },
            }
            j = j + 1;
        }
        assert(base + node_deps(*node).subrange(0, node.deps.len() as int) =~= flat_deps(
            nodes@,
            (ni + 1) as nat,
        ));
        ni = ni + 1;
    }
    Ok((g, links))
}

/// Puts the packages in an order in which each comes before what it
/// depends on, by the edges that are not there for tests alone.
///
/// Fails where those edges have a cycle.
#[verifier::loop_isolation(false)]
pub(crate) fn order_packages(g: &Graph<(), usize, Directed, u32>, links: &Vec<DependencyEdge>) -> (r: Result<
    Vec<usize>,
    Error,
>)
    requires
        node_count_of(*g) <= u32::MAX,
        edges_of(*g).len() <= u32::MAX,
        edges_in_range(edges_of(*g), node_count_of(*g)),
        forall|e: int| 0 <= e < edges_of(*g).len() ==> (#[trigger] edges_of(*g)[e]).2 < links.len(),
    ensures
        match r {
            Ok(order) => is_topological_order(
                order@,
                node_count_of(*g),
                edges_of(*g).filter(in_build(links_view(links@))),
            ),
            Err(e) => (e is PackageGraphInternalError) && !is_acyclic(
                node_count_of(*g),
                edges_of(*g).filter(in_build(links_view(links@))),
            ),
        },
{
    let ghost edges = edges_of(*g);
    let ghost keep = in_build(links_view(links@));
    let n = graph_node_count(g);
    let m = graph_edge_count(g);
    let mut aux = graph_with_nodes(n);
    let mut e: usize = 0;
    assert(edges.subrange(0, 0) =~= Seq::<Edge>::empty());
    assert(Seq::<Edge>::empty().filter(keep) =~= Seq::<Edge>::empty()) by {
        reveal(Seq::filter);
    }
    while e < m
        invariant
            e <= m,
            node_count_of(aux) == n,
            edges_of(aux) == edges.subrange(0, e as int).filter(keep),
            edges_of(aux).len() <= e,
        decreases m - e,
    {
        let edge = graph_edge(g, e);
        proof {
            assert(edges.subrange(0, e + 1) =~= edges.subrange(0, e as int).push(edges[e as int]));
            edges.subrange(0, e as int).lemma_filter_push(edges[e as int], keep);
            assert(links_view(links@)[edge.2 as int] == links[edge.2 as int]@);
        }
        if !links[edge.2].dev_only() {
            graph_add_edge(&mut aux, edge.0, edge.1, edge.2);
        }
        e = e + 1;
    }
    assert(edges.subrange(0, m as int) =~= edges);
    match graph_toposort(&aux) {
        Ok(order) => Ok(order),
        Err(_) => Err(
            Error::PackageGraphInternalError("unexpected cycle in dep graph".to_owned()),
        ),
    }
}

/// The nodes of the resolved graph; none where the metadata has no
/// resolved graph.
pub open spec fn nodes_of(metadata: Metadata) -> Seq<Node> {
    match metadata.resolve {
        Some(resolve) => resolve.nodes@,
        None => Seq::empty(),
    }
}

/// Whether a package graph can be put together from the metadata: the
/// dependencies are resolved, no two packages have the same identifier,
/// the members of the workspace are in order, and so are the resolved
/// dependencies.
pub open spec fn construct_ok(metadata: Metadata, current: Option<PlatformView>) -> bool {
    &&& metadata.resolve is Some
    &&& ids_distinct(metadata.packages@)
    &&& members_valid(metadata.packages@, metadata.workspace_root@, metadata.workspace_members@)
    &&& links_valid(metadata.packages@, nodes_of(metadata), current)
}

/// Whether a package is a member of the workspace.
pub open spec fn is_member(metadata: Metadata, id: Seq<char>) -> bool {
    exists|k: int|
        0 <= k < metadata.workspace_members.len() && (#[trigger] metadata.workspace_members[k])@ == id
}

/// Whether the graph is that of the metadata: it has the packages of the
/// metadata in their order, those of the workspace with their paths, and
/// the edges of the resolved dependencies in their order.
pub open spec fn built_from(g: PackageGraphView, metadata: Metadata, current: Option<PlatformView>) -> bool {
    let packages = metadata.packages@;
    &&& g.packages.len() == packages.len()
    &&& forall|i: int|
        0 <= i < packages.len() ==> {
            &&& (#[trigger] g.packages[i]).package == packages[i]
            &&& g.packages[i].workspace_path == if is_member(metadata, packages[i].id@) {
                workspace_path_of(metadata.workspace_root@, packages[i].manifest_path@)
            } else {
                None
            }
        }
    &&& g.workspace.root == metadata.workspace_root@
    &&& links_built(
        packages,
        flat_deps(nodes_of(metadata), nodes_of(metadata).len()),
        g.edges,
        g.links,
        current,
    )
}

/// The edges of the non-test dependencies that the metadata resolves have
/// a cycle.
pub open spec fn build_cycle(metadata: Metadata, current: Option<PlatformView>) -> bool {
    forall|edges: Seq<Edge>, links: Seq<DependencyEdgeView>| #[trigger]
        links_built(
            metadata.packages@,
            flat_deps(nodes_of(metadata), nodes_of(metadata).len()),
            edges,
            links,
            current,
        ) ==> !is_acyclic(metadata.packages@.len(), edges.filter(in_build(links)))
}

/// The resolved dependencies fix the edges and their details.
pub proof fn lemma_links_built_unique(
    packages: Seq<Package>,
    flat: Seq<FlatDep>,
    edges: Seq<Edge>,
    links: Seq<DependencyEdgeView>,
    edges2: Seq<Edge>,
    links2: Seq<DependencyEdgeView>,
    current: Option<PlatformView>,
)
    requires
        ids_distinct(packages),
        links_built(packages, flat, edges, links, current),
        links_built(packages, flat, edges2, links2, current),
    ensures
        edges == edges2,
        links == links2,
{
    assert forall|k: int| 0 <= k < flat.len() implies edges[k] == edges2[k] && links[k] == links2[k] by {
        assert(link_expected(packages, flat[k], edges[k], links[k], k, current));
        assert(link_expected(packages, flat[k], edges2[k], links2[k], k, current));
    }
    assert(edges =~= edges2);
    assert(links =~= links2);
}

impl PackageGraph {
    /// Constructs a package graph from the given metadata. The statuses
    /// that are kept with the dependencies are those on the platform
    /// `current`, if one is given.
    ///
    /// Fails with `PackageGraphConstructError` where the metadata is not in
    /// order, and with `PackageGraphInternalError` where the dependencies
    /// that are not there for tests alone have a cycle.
    pub fn new(metadata: Metadata, current: Option<Platform>) -> (r: Result<PackageGraph, Error>)
        ensures
            match r {
                Ok(g) => {
                    &&& g.wf()
                    &&& construct_ok(metadata, current_view(current))
                    &&& built_from(g@, metadata, current_view(current))
                },
                Err(e) => if construct_ok(metadata, current_view(current)) {
                    (e is PackageGraphInternalError) && build_cycle(metadata, current_view(current))
                } else {
                    e is PackageGraphConstructError
                },
            },
    {
        let ghost cur = current_view(current);
        let Metadata { packages, workspace_members, resolve, workspace_root } = metadata;
        let ghost declared_packages = packages@;
        let table = match index_packages(&packages) {
            Ok(table) => table,
            Err(e) => {
                return Err(e);
            },
        };
        let (workspace, paths) = match build_workspace(
            &table,
            &packages,
            workspace_root.as_str(),
            &workspace_members,
        ) {
            Ok(built) => built,
            Err(e) => {
                return Err(e);
            },
        };
        let resolve = match resolve {
            Some(resolve) => resolve,
            None => {
                return Err(
                    Error::PackageGraphConstructError(
                        "no 'resolve' entries found: ensure you don't have no_deps set".to_owned(),
                    ),
                );
            },
        };
        let ghost path_list = paths@;
        let metas = build_packages(packages, paths);
        assert(declared(metas@) =~= declared_packages);
        let (dep_graph, links) = match build_links(&table, &metas, &resolve.nodes, &current) {
            Ok(built) => built,
            Err(e) => {
                return Err(e);
            },
        };
        let ghost flat = flat_deps(resolve.nodes@, resolve.nodes.len() as nat);
        let ghost edges = edges_of(dep_graph);
        proof {
            assert forall|e: int| 0 <= e < edges.len() implies (#[trigger] edges[e]).0
                < declared_packages.len() && edges[e].1 < declared_packages.len() && edges[e].2
                < links.len() by {
                assert(link_expected(
                    declared_packages,
                    flat[e],
                    edges[e],
                    links_view(links@)[e],
                    e,
                    cur,
                ));
            }
        }
        let topo = match order_packages(&dep_graph, &links) {
            Ok(topo) => topo,
            Err(e) => {
                proof {
                    assert forall|edges2: Seq<Edge>, links2: Seq<DependencyEdgeView>| #[trigger]
                        links_built(declared_packages, flat, edges2, links2, cur) implies !is_acyclic(
                        declared_packages.len(),
                        edges2.filter(in_build(links2)),
                    ) by {
                        lemma_links_built_unique(
                            declared_packages,
                            flat,
                            edges,
                            links_view(links@),
                            edges2,
                            links2,
                            cur,
                        );
                    }
                }
                return Err(e);
            },
        };
        let data = PackageGraphData::new(metas, workspace, &table);
        let ghost view = PackageGraphView {
            node_count: node_count_of(dep_graph),
            packages: data@.0,
            edges: edges_of(dep_graph),
            links: links_view(links@),
            workspace: data@.1,
            topo: topo@,
        };
        proof {
            assert(view.packages_wf()) by {
                assert forall|i: int, j: int|
                    0 <= i < view.packages.len() && 0 <= j < view.packages.len() && i
                        != j implies (#[trigger] view.packages[i]).package.id@ != (
                #[trigger] view.packages[j]).package.id@ by {
                    assert(declared_packages[i].id@ != declared_packages[j].id@);
                }
            }
            assert(view.edges_wf()) by {
                assert forall|e: int, f: int|
                    0 <= e < edges.len() && 0 <= f < edges.len() && e != f implies (
                #[trigger] edges[e]).2 != (#[trigger] edges[f]).2 by {
                    assert(link_expected(
                        declared_packages,
                        flat[e],
                        edges[e],
                        view.links[e],
                        e,
                        cur,
                    ));
                    assert(link_expected(
                        declared_packages,
                        flat[f],
                        edges[f],
                        view.links[f],
                        f,
                        cur,
                    ));
                }
            }
            assert(view.links_wf()) by {
                assert forall|e: int| 0 <= e < edges.len() implies view.link_wf(
                    #[trigger] edges[e],
                ) by {
                    assert(link_expected(
                        declared_packages,
                        flat[e],
                        edges[e],
                        view.links[e],
                        e,
                        cur,
                    ));
                    assert(view.packages[edges[e].0 as int].wf());
                    assert(view.packages[edges[e].1 as int].package
                        == declared_packages[edges[e].1 as int]);
                }
            }
            assert(view.workspace_wf()) by {
                let members = view.workspace.members;
                assert forall|k: int| 0 <= k < members.len() implies view.member_is_package(
                    #[trigger] members[k],
                ) by {
                    assert(members.contains(members[k]));
                    let i = choose|i: int|
                        0 <= i < declared_packages.len() && opt_string_view(
                            #[trigger] path_list[i],
                        ) == Some(members[k].0) && declared_packages[i].id@ == members[k].1;
                    assert(view.packages[i].package == declared_packages[i]);
                }
                assert forall|i: int| 0 <= i < view.packages.len() implies view.package_is_member(
                    #[trigger] view.packages[i],
                ) by {
                    if view.packages[i].workspace_path is Some {
                        assert(opt_string_view(path_list[i]) == Some(
                            view.packages[i].workspace_path->0,
                        ));
                    }
                }
                assert(sorted_by_path(view.workspace.members));
            }
            assert(built_from(view, metadata, cur)) by {
                assert forall|i: int| 0 <= i < declared_packages.len() implies {
                    &&& (#[trigger] view.packages[i]).package == declared_packages[i]
                    &&& view.packages[i].workspace_path == if is_member(
                        metadata,
                        declared_packages[i].id@,
                    ) {
                        workspace_path_of(
                            metadata.workspace_root@,
                            declared_packages[i].manifest_path@,
                        )
                    } else {
                        None
                    }
                } by {
                    assert(view.packages[i].workspace_path == opt_string_view(path_list[i]));
                }
            }
        }
        Ok(PackageGraph::from_parts(dep_graph, links, table, topo, data))
    }
}

} // verus!
