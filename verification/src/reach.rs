//! What can be reached in a graph along the edges that a filter lets pass.

use crate::petgraph_support::{
    edges_in_range, edges_of, flag_at, flag_set, graph_edges_directed, graph_node_count, joins,
    node_count_of, DependencyDirection, Edge,
};
use petgraph::graph::Graph;
use petgraph::Directed;
use vstd::prelude::*;

verus! {

/// Whether an edge whose weight has its flag set leads from `a` to `b`,
/// walking in `direction`.
pub open spec fn step(
    edges: Seq<Edge>,
    enabled: Seq<bool>,
    direction: DependencyDirection,
    a: int,
    b: int,
) -> bool {
    exists|e: int|
        0 <= e < edges.len() && flag_set(enabled, (#[trigger] edges[e]).2 as int) && (if direction
            == DependencyDirection::Forward {
            joins(edges[e], a, b)
        } else {
            joins(edges[e], b, a)
        })
}

/// Whether `p` is a walk along enabled edges in `direction`.
pub open spec fn is_enabled_walk(
    edges: Seq<Edge>,
    enabled: Seq<bool>,
    direction: DependencyDirection,
    p: Seq<int>,
) -> bool {
    p.len() >= 1 && forall|i: int|
        #![trigger p[i]]
        0 <= i < p.len() - 1 ==> step(edges, enabled, direction, p[i], p[i + 1])
}

/// Whether a walk along enabled edges leads from `a` to `v`.
pub open spec fn reached_from(
    edges: Seq<Edge>,
    enabled: Seq<bool>,
    direction: DependencyDirection,
    a: int,
    v: int,
) -> bool {
    exists|p: Seq<int>|
        is_enabled_walk(edges, enabled, direction, p) && #[trigger] p.first() == a && p.last() == v
}

/// Whether a walk along enabled edges leads from one of the seeds to `v`.
pub open spec fn reached(
    edges: Seq<Edge>,
    enabled: Seq<bool>,
    direction: DependencyDirection,
    seeds: Seq<usize>,
    v: int,
) -> bool {
    exists|k: int|
        0 <= k < seeds.len() && reached_from(edges, enabled, direction, (#[trigger] seeds[k]) as int, v)
}

/// Whether every enabled edge from `w` leads to a marked node.
pub open spec fn closed_at(
    edges: Seq<Edge>,
    enabled: Seq<bool>,
    direction: DependencyDirection,
    marks: Seq<bool>,
    w: int,
) -> bool {
    forall|b: int| #[trigger]
        step(edges, enabled, direction, w, b) ==> 0 <= b < marks.len() && marks[b]
}

/// The number of marks that are set.
pub open spec fn count_set(marks: Seq<bool>) -> nat
    decreases marks.len(),
{
    if marks.len() == 0 {
        0
    } else {
        count_set(marks.drop_last()) + if marks.last() {
            1nat
        } else {
            0nat
        }
    }
}

proof fn lemma_count_set_bound(marks: Seq<bool>)
    ensures
        count_set(marks) <= marks.len(),
    decreases marks.len(),
{
    if marks.len() > 0 {
        lemma_count_set_bound(marks.drop_last());
    }
}

proof fn lemma_count_set_update(marks: Seq<bool>, i: int)
    requires
        0 <= i < marks.len(),
        !marks[i],
    ensures
        count_set(marks.update(i, true)) == count_set(marks) + 1,
    decreases marks.len(),
{
    let after = marks.update(i, true);
    if i == marks.len() - 1 {
        assert(after.drop_last() =~= marks.drop_last());
    } else {
        lemma_count_set_update(marks.drop_last(), i);
        assert(after.drop_last() =~= marks.drop_last().update(i, true));
    }
}

/// A node reaches itself.
pub proof fn lemma_reached_self(
    edges: Seq<Edge>,
    enabled: Seq<bool>,
    direction: DependencyDirection,
    a: int,
)
    ensures
        reached_from(edges, enabled, direction, a, a),
{
    let p = seq![a];
    assert(is_enabled_walk(edges, enabled, direction, p));
    assert(p.first() == a && p.last() == a);
}

/// A walk goes on along one more enabled edge.
pub proof fn lemma_reached_step(
    edges: Seq<Edge>,
    enabled: Seq<bool>,
    direction: DependencyDirection,
    a: int,
    u: int,
    v: int,
)
    requires
        reached_from(edges, enabled, direction, a, u),
        step(edges, enabled, direction, u, v),
    ensures
        reached_from(edges, enabled, direction, a, v),
{
    let p = choose|p: Seq<int>|
        is_enabled_walk(edges, enabled, direction, p) && #[trigger] p.first() == a && p.last() == u;
    let q = p.push(v);
    assert forall|i: int| #![trigger q[i]] 0 <= i < q.len() - 1 implies step(
        edges,
        enabled,
        direction,
        q[i],
        q[i + 1],
    ) by {
        if i < p.len() - 1 {
            assert(q[i] == p[i] && q[i + 1] == p[i + 1]);
        } else {
            assert(q[i] == u && q[i + 1] == v);
        }
    }
    assert(is_enabled_walk(edges, enabled, direction, q));
    assert(q.first() == a && q.last() == v);
}

/// Where every edge is enabled, a walk forward along enabled edges is a
/// walk along edges, and the other way round.
pub proof fn lemma_reached_is_reachable(edges: Seq<Edge>, enabled: Seq<bool>, a: int, v: int)
    requires
        forall|e: int| 0 <= e < edges.len() ==> flag_set(enabled, (#[trigger] edges[e]).2 as int),
    ensures
        reached_from(edges, enabled, DependencyDirection::Forward, a, v)
            <==> crate::petgraph_support::reachable(edges, a, v),
{
    let forward = DependencyDirection::Forward;
    assert forall|x: int, y: int|
        step(edges, enabled, forward, x, y) <==> crate::petgraph_support::has_edge(edges, x, y) by {
        if step(edges, enabled, forward, x, y) {
            let e = choose|e: int|
                0 <= e < edges.len() && flag_set(enabled, (#[trigger] edges[e]).2 as int) && joins(
                    edges[e],
                    x,
                    y,
                );
            assert(joins(edges[e], x, y));
        }
        if crate::petgraph_support::has_edge(edges, x, y) {
            let e = choose|e: int| 0 <= e < edges.len() && joins(#[trigger] edges[e], x, y);
            assert(flag_set(enabled, edges[e].2 as int));
        }
    }
    if reached_from(edges, enabled, forward, a, v) {
        let p = choose|p: Seq<int>|
            is_enabled_walk(edges, enabled, forward, p) && #[trigger] p.first() == a && p.last() == v;
        assert(crate::petgraph_support::is_walk(edges, p));
        assert(p.first() == a && p.last() == v);
    }
    if crate::petgraph_support::reachable(edges, a, v) {
        let p = choose|p: Seq<int>|
            crate::petgraph_support::is_walk(edges, p) && #[trigger] p.first() == a && p.last() == v;
        assert(is_enabled_walk(edges, enabled, forward, p));
        assert(p.first() == a && p.last() == v);
    }
}

/// Marks that hold a node and are closed under enabled edges hold all that
/// the node reaches.
pub proof fn lemma_closed_holds_walk(
    edges: Seq<Edge>,
    enabled: Seq<bool>,
    direction: DependencyDirection,
    marks: Seq<bool>,
    p: Seq<int>,
)
    requires
        is_enabled_walk(edges, enabled, direction, p),
        0 <= p.first() < marks.len() && marks[p.first()],
        forall|w: int|
            0 <= w < marks.len() && marks[w] ==> closed_at(edges, enabled, direction, marks, w),
    ensures
        0 <= p.last() < marks.len() && marks[p.last()],
    decreases p.len(),
{
    if p.len() > 1 {
        let q = p.drop_last();
        assert forall|i: int| #![trigger q[i]] 0 <= i < q.len() - 1 implies step(
            edges,
            enabled,
            direction,
            q[i],
            q[i + 1],
        ) by {
            assert(q[i] == p[i] && q[i + 1] == p[i + 1]);
        }
        lemma_closed_holds_walk(edges, enabled, direction, marks, q);
        let i = p.len() - 2;
        assert(q.last() == p[i]);
        assert(step(edges, enabled, direction, p[i], p[i + 1]));
        assert(closed_at(edges, enabled, direction, marks, p[i]));
    }
}

/// Marks the nodes that walks along enabled edges reach from the seeds.
///
/// An edge is enabled when the flag of its weight is set in `enabled`.
pub(crate) fn reach(
    g: &Graph<(), usize, Directed, u32>,
    seeds: &Vec<usize>,
    enabled: &Vec<bool>,
    direction: DependencyDirection,
) -> (marks: Vec<bool>)
    requires
        edges_in_range(edges_of(*g), node_count_of(*g)),
        forall|k: int| 0 <= k < seeds.len() ==> (#[trigger] seeds[k]) < node_count_of(*g),
    ensures
        marks.len() == node_count_of(*g),
        forall|v: int|
            0 <= v < marks.len() ==> (marks[v] <==> reached(
                edges_of(*g),
                enabled@,
                direction,
                seeds@,
                v,
            )),
{
    let n = graph_node_count(g);
    let ghost edges = edges_of(*g);
    let mut marks: Vec<bool> = Vec::new();
    let mut i: usize = 0;
    while i < n
        invariant
            i <= n,
            marks.len() == i,
            forall|v: int| 0 <= v < i ==> !marks[v],
            count_set(marks@) == 0,
        decreases n - i,
    {
        let ghost before = marks@;
        marks.push(false);
        assert(marks@.drop_last() =~= before);
        i = i + 1;
    }
    let mut count: usize = 0;
    let mut stack: Vec<usize> = Vec::new();
    let mut k: usize = 0;
    while k < seeds.len()
        invariant
            k <= seeds.len(),
            n == node_count_of(*g),
            marks.len() == n,
            count == count_set(marks@),
            forall|j: int| 0 <= j < seeds.len() ==> (#[trigger] seeds[j]) < n,
            forall|j: int| 0 <= j < k ==> marks[(#[trigger] seeds[j]) as int],
            forall|v: int|
                0 <= v < n && marks[v] ==> stack@.contains(v as usize) && reached(
                    edges,
                    enabled@,
                    direction,
                    seeds@,
                    v,
                ),
            forall|j: int| 0 <= j < stack.len() ==> (#[trigger] stack[j]) < n && marks[stack[j] as int],
        decreases seeds.len() - k,
    {
        let s = seeds[k];
        if !marks[s] {
            proof {
                lemma_count_set_update(marks@, s as int);
                lemma_count_set_bound(marks@.update(s as int, true));
                lemma_reached_self(edges, enabled@, direction, s as int);
            }
            let ghost old_stack = stack@;
            marks.set(s, true);
            stack.push(s);
            count = count + 1;
            assert(forall|v: usize| old_stack.contains(v) ==> stack@.contains(v)) by {
                assert forall|v: usize| old_stack.contains(v) implies stack@.contains(v) by {
                    let j = choose|j: int| 0 <= j < old_stack.len() && old_stack[j] == v;
                    assert(stack@[j] == v);
                }
            }
            assert(stack@[stack.len() - 1] == s);
        }
        k = k + 1;
    }
    while stack.len() > 0
        invariant
            n == node_count_of(*g),
            edges == edges_of(*g),
            edges_in_range(edges, n as nat),
            marks.len() == n,
            count == count_set(marks@),
            forall|j: int| 0 <= j < seeds.len() ==> (#[trigger] seeds[j]) < n && marks[seeds[j] as int],
            forall|v: int|
                0 <= v < n && marks[v] ==> reached(edges, enabled@, direction, seeds@, v),
            forall|w: int|
                0 <= w < n && marks[w] ==> stack@.contains(w as usize) || closed_at(
                    edges,
                    enabled@,
                    direction,
                    marks@,
                    w,
                ),
            forall|j: int| 0 <= j < stack.len() ==> (#[trigger] stack[j]) < n && marks[stack[j] as int],
        decreases 2 * (n - count) + stack.len(),
    {
        proof {
            lemma_count_set_bound(marks@);
        }
        let ghost stack_before = stack@;
        let ghost count_before = count;
        let u = stack.pop().unwrap();
        assert(forall|w: usize| stack_before.contains(w) ==> w == u || stack@.contains(w)) by {
            assert forall|w: usize| stack_before.contains(w) implies w == u || stack@.contains(
                w,
            ) by {
                let j = choose|j: int| 0 <= j < stack_before.len() && stack_before[j] == w;
                if j < stack@.len() {
                    assert(stack@[j] == w);
                }
            }
        }
        let succ = graph_edges_directed(g, u, direction);
        let mut j: usize = 0;
        while j < succ.len()
            invariant
                j <= succ.len(),
                n == node_count_of(*g),
                edges == edges_of(*g),
                edges_in_range(edges, n as nat),
                u < n,
                marks[u as int],
                marks.len() == n,
                count == count_set(marks@),
                count <= n,
                2 * (n - count) + stack.len() < 2 * (n - count_before) + stack_before.len(),
                forall|l: int| 0 <= l < seeds.len() ==> (#[trigger] seeds[l]) < n && marks[seeds[l] as int],
                forall|v: int|
                    0 <= v < n && marks[v] ==> reached(edges, enabled@, direction, seeds@, v),
                forall|w: int|
                    0 <= w < n && marks[w] ==> w == u || stack@.contains(w as usize) || closed_at(
                        edges,
                        enabled@,
                        direction,
                        marks@,
                        w,
                    ),
                forall|l: int|
                    0 <= l < stack.len() ==> (#[trigger] stack[l]) < n && marks[stack[l] as int],
                forall|l: int|
                    0 <= l < succ.len() ==> {
                        &&& (#[trigger] succ[l]).0 < edges.len()
                        &&& edges[succ[l].0 as int] == succ[l].1
                        &&& (if direction == DependencyDirection::Forward {
                            succ[l].1.0
                        } else {
                            succ[l].1.1
                        }) == u
                    },
                forall|l: int|
                    0 <= l < j && flag_set(enabled@, (#[trigger] succ[l]).1.2 as int) ==> marks[(
                    if direction == DependencyDirection::Forward {
                        succ[l].1.1
                    } else {
                        succ[l].1.0
                    }) as int],
            decreases succ.len() - j,
        {
            let (e, edge) = succ[j];
            if flag_at(enabled, edge.2) {
                let v = match direction {
                    DependencyDirection::Forward => edge.1,
                    DependencyDirection::Reverse => edge.0,
                };
                assert(edges[e as int] == edge);
                assert(step(edges, enabled@, direction, u as int, v as int));
                if !marks[v] {
                    proof {
                        lemma_count_set_update(marks@, v as int);
                        lemma_count_set_bound(marks@.update(v as int, true));
                        let s = choose|s: int|
                            0 <= s < seeds.len() && reached_from(
                                edges,
                                enabled@,
                                direction,
                                (#[trigger] seeds[s]) as int,
                                u as int,
                            );
                        lemma_reached_step(
                            edges,
                            enabled@,
                            direction,
                            seeds[s] as int,
                            u as int,
                            v as int,
                        );
                    }
                    let ghost old_stack = stack@;
                    let ghost old_marks = marks@;
                    marks.set(v, true);
                    stack.push(v);
                    count = count + 1;
                    assert(forall|w: usize| old_stack.contains(w) ==> stack@.contains(w)) by {
                        assert forall|w: usize| old_stack.contains(w) implies stack@.contains(
                            w,
                        ) by {
                            let l = choose|l: int| 0 <= l < old_stack.len() && old_stack[l] == w;
                            assert(stack@[l] == w);
                        }
                    }
                    assert(stack@[stack.len() - 1] == v);
                    assert forall|w: int|
                        closed_at(edges, enabled@, direction, old_marks, w) implies closed_at(
                        edges,
                        enabled@,
                        direction,
                        marks@,
                        w,
                    ) by {}
                }
            }
            j = j + 1;
        }
        assert(closed_at(edges, enabled@, direction, marks@, u as int)) by {
            assert forall|b: int| #[trigger]
                step(edges, enabled@, direction, u as int, b) implies 0 <= b < marks@.len()
                && marks@[b] by {
                let e = choose|e: int|
                    0 <= e < edges.len() && flag_set(enabled@, (#[trigger] edges[e]).2 as int) && (
                    if direction == DependencyDirection::Forward {
                        joins(edges[e], u as int, b)
                    } else {
                        joins(edges[e], b, u as int)
                    });
                let l = choose|l: int| 0 <= l < succ.len() && (#[trigger] succ[l]).0 == e;
                assert(succ[l].1 == edges[e]);
            }
        }
    }
    assert forall|v: int| 0 <= v < marks.len() && reached(
        edges,
        enabled@,
        direction,
        seeds@,
        v,
    ) implies marks[v] by {
        let s = choose|s: int|
            0 <= s < seeds.len() && reached_from(
                edges,
                enabled@,
                direction,
                (#[trigger] seeds[s]) as int,
                v,
            );
        let p = choose|p: Seq<int>|
            is_enabled_walk(edges, enabled@, direction, p) && #[trigger] p.first() == seeds[s]
                && p.last() == v;
        lemma_closed_holds_walk(edges, enabled@, direction, marks@, p);
    }
    marks
}

} // verus!
