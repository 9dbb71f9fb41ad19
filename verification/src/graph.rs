//! The dependency graph underlying the system scheduler, as an
//! arena of nodes with edge lists by index: a topological order with
//! a deterministic registration-order tie-break, and build-time cycle
//! detection.

use vstd::prelude::*;
use vstd::seq_lib::*;
use vstd::set_lib::*;

verus! {

/// Every listed dependency is a node of the graph.
pub open spec fn wf_graph(g: Seq<Seq<usize>>) -> bool {
    forall|i: int, k: int|
        0 <= i < g.len() && 0 <= k < g[i].len() ==> (#[trigger] g[i][k] as int) < g.len()
}

/// Node `j` appears among the first `p` scheduled nodes.
pub open spec fn placed_before(order: Seq<usize>, p: int, j: usize) -> bool {
    exists|q: int| 0 <= q < p && order[q] == j
}

/// Node `j` could be scheduled at position `p`: it is not scheduled
/// yet and all its dependencies already are.
pub open spec fn eligible_at(g: Seq<Seq<usize>>, order: Seq<usize>, p: int, j: usize) -> bool {
    &&& (j as int) < g.len()
    &&& !placed_before(order, p, j)
    &&& forall|k: int|
        0 <= k < g[j as int].len() ==> placed_before(order, p, #[trigger] g[j as int][k])
}

/// A complete execution order: every node stands at a position it was
/// eligible for, so no node repeats and every dependency runs
/// strictly earlier.
pub open spec fn is_valid_order(g: Seq<Seq<usize>>, order: Seq<usize>) -> bool {
    &&& order.len() == g.len()
    &&& forall|p: int| 0 <= p < order.len() ==> eligible_at(g, order, p, #[trigger] order[p])
}

/// Ties between nodes eligible at the same position go to the lower
/// index, which is registration order.
pub open spec fn first_eligible(g: Seq<Seq<usize>>, order: Seq<usize>) -> bool {
    forall|p: int, j: usize|
        0 <= p < order.len() && #[trigger] eligible_at(g, order, p, j) ==> order[p] <= j
}

/// The graph admits some complete execution order; equivalently, it
/// is acyclic.
pub open spec fn schedulable(g: Seq<Seq<usize>>) -> bool {
    exists|order: Seq<usize>| is_valid_order(g, order)
}

proof fn lemma_push_keeps_prefix(g: Seq<Seq<usize>>, order: Seq<usize>, c: usize, p: int, j: usize)
    requires
        0 <= p <= order.len(),
    ensures
        placed_before(order.push(c), p, j) == placed_before(order, p, j),
        eligible_at(g, order.push(c), p, j) == eligible_at(g, order, p, j),
{
    assert forall|t: usize| placed_before(order.push(c), p, t) implies placed_before(
        order,
        p,
        t,
    ) by {
        let q = choose|q: int| 0 <= q < p && order.push(c)[q] == t;
        assert(order[q] == t);
    }
    assert forall|t: usize| placed_before(order, p, t) implies placed_before(
        order.push(c),
        p,
        t,
    ) by {
        let q = choose|q: int| 0 <= q < p && order[q] == t;
        assert(order.push(c)[q] == t);
    }
}

/// If the scheduled prefix is shorter than the graph and nothing is
/// eligible to come next, no complete order exists: the unscheduled
/// remainder holds a dependency cycle.
proof fn lemma_stuck_means_unschedulable(g: Seq<Seq<usize>>, order: Seq<usize>)
    requires
        wf_graph(g),
        order.len() < g.len(),
        forall|p: int| 0 <= p < order.len() ==> eligible_at(g, order, p, #[trigger] order[p]),
        forall|j: usize| (j as int) < g.len() ==> !eligible_at(g, order, order.len() as int, j),
    ensures
        !schedulable(g),
{
    broadcast use vstd::seq_lib::seq_to_set_is_finite;

    let n = g.len() as int;
    let len = order.len() as int;
    if schedulable(g) {
        let sigma = choose|sigma: Seq<usize>| is_valid_order(g, sigma);
        // A complete order never repeats a node.
        assert(sigma.no_duplicates()) by {
            assert forall|p: int, q: int| 0 <= p < q < sigma.len() implies sigma[p]
                != sigma[q] by {
                assert(eligible_at(g, sigma, q, sigma[q]));
                if sigma[p] == sigma[q] {
                    assert(placed_before(sigma, q, sigma[q]));
                }
            }
        }
        // Some position of the complete order holds a node not yet
        // scheduled: the prefix is too short to hold all n of them.
        assert(exists|m: int| 0 <= m < sigma.len() && !placed_before(order, len, sigma[m])) by {
            if forall|m: int|
                0 <= m < sigma.len() ==> placed_before(order, len, #[trigger] sigma[m]) {
                assert(sigma.to_set().subset_of(order.to_set())) by {
                    assert forall|v: usize| sigma.to_set().contains(v) implies order.to_set()
                        .contains(v) by {
                        let m = choose|m: int| 0 <= m < sigma.len() && sigma[m] == v;
                        assert(placed_before(order, len, v));
                        let q = choose|q: int| 0 <= q < len && order[q] == v;
                        assert(order.contains(order[q]));
                    }
                }
                sigma.unique_seq_to_set();
                lemma_len_subset(sigma.to_set(), order.to_set());
                order.lemma_cardinality_of_set();
                assert(false);
            }
        }
        let m = lemma_first_not_placed(order, len, sigma, 0);
        // Its dependencies all sit before position m in the complete
        // order, hence are scheduled already: it is eligible. But
        // nothing was eligible.
        let v = sigma[m];
        assert(eligible_at(g, sigma, m, v));
        assert forall|k: int| 0 <= k < g[v as int].len() implies placed_before(
            order,
            len,
            #[trigger] g[v as int][k],
        ) by {
            let d = g[v as int][k];
            assert(placed_before(sigma, m, d));
            let q = choose|q: int| 0 <= q < m && sigma[q] == d;
            assert(placed_before(order, len, sigma[q]));
        }
        assert(eligible_at(g, order, len, v));
        assert(false);
    }
}

/// The first position at or after `lo` in `sigma` holding a node not
/// yet scheduled into `order`'s first `len` slots.
proof fn lemma_first_not_placed(order: Seq<usize>, len: int, sigma: Seq<usize>, lo: int) -> (m: int)
    requires
        0 <= lo <= sigma.len(),
        exists|m: int| lo <= m < sigma.len() && !placed_before(order, len, sigma[m]),
    ensures
        lo <= m < sigma.len(),
        !placed_before(order, len, sigma[m]),
        forall|q: int| lo <= q < m ==> placed_before(order, len, #[trigger] sigma[q]),
    decreases sigma.len() - lo,
{
    if placed_before(order, len, sigma[lo]) {
        lemma_first_not_placed(order, len, sigma, lo + 1)
    } else {
        lo
    }
}

/// Schedule the graph: the unique order that at every position takes
/// the lowest-indexed node whose dependencies have all run, or `None`
/// when a dependency cycle makes that impossible.
pub fn topological_order(adj: &Vec<Vec<usize>>) -> (r: Option<Vec<usize>>)
    requires
        wf_graph(adj.deep_view()),
    ensures
        match r {
            Some(order) => is_valid_order(adj.deep_view(), order@) && first_eligible(
                adj.deep_view(),
                order@,
            ),
            None => !schedulable(adj.deep_view()),
        },
{
    let ghost g = adj.deep_view();
    let n = adj.len();
    proof {
        assert(g.len() == n);
        assert forall|i: int| 0 <= i < n implies g[i] == adj@[i]@ by {
            assert(g[i] =~= adj@[i]@);
        }
    }
    let mut placed: Vec<bool> = vec![false; n];
    let mut order: Vec<usize> = Vec::new();
    while order.len() < n
        invariant
            n == g.len(),
            g == adj.deep_view(),
            wf_graph(g),
            placed@.len() == n,
            order@.len() <= n,
            forall|p: int| 0 <= p < order@.len() ==> eligible_at(g, order@, p, #[trigger] order@[p]),
            first_eligible(g, order@),
            forall|j: usize|
                (j as int) < n ==> (placed@[j as int] <==> placed_before(
                    order@,
                    order@.len() as int,
                    j,
                )),
        decreases n - order.len(),
    {
        let ghost len = order@.len() as int;
        // Scan registration order for the first eligible node.
        let mut chosen: Option<usize> = None;
        let mut j: usize = 0;
        while j < n
            invariant_except_break
                chosen is None,
            invariant
                n == g.len(),
                g == adj.deep_view(),
                wf_graph(g),
                placed@.len() == n,
                len == order@.len(),
                j <= n,
                forall|t: usize|
                    (t as int) < n ==> (placed@[t as int] <==> placed_before(order@, len, t)),
                forall|t: usize| t < j ==> !eligible_at(g, order@, len, t),
            ensures
                match chosen {
                    Some(c) => eligible_at(g, order@, len, c) && forall|t: usize|
                        t < c ==> !eligible_at(g, order@, len, t),
                    None => forall|t: usize| (t as int) < n ==> !eligible_at(g, order@, len, t),
                },
            decreases n - j,
        {
            if !placed[j] {
                let deps = &adj[j];
                let mut all_placed = true;
                let mut k: usize = 0;
                while k < deps.len() && all_placed
                    invariant
                        n == g.len(),
                        g == adj.deep_view(),
                        (j as int) < g.len(),
                        deps@ == g[j as int],
                        wf_graph(g),
                        placed@.len() == n,
                        len == order@.len(),
                        k <= deps@.len(),
                        forall|t: usize|
                            (t as int) < n ==> (placed@[t as int] <==> placed_before(
                                order@,
                                len,
                                t,
                            )),
                        all_placed ==> forall|k2: int|
                            0 <= k2 < k ==> placed_before(order@, len, #[trigger] deps@[k2]),
                        !all_placed ==> exists|k2: int|
                            0 <= k2 < deps@.len() && !placed_before(order@, len, deps@[k2]),
                    decreases deps@.len() - k + (if all_placed {
                        1int
                    } else {
                        0int
                    }),
                {
                    if !placed[deps[k]] {
                        proof {
                            assert(!placed_before(order@, len, deps@[k as int]));
                        }
                        all_placed = false;
                    } else {
                        k = k + 1;
                    }
                }
                if all_placed {
                    proof {
                        assert forall|k2: int| 0 <= k2 < g[j as int].len() implies placed_before(
                            order@,
                            len,
                            #[trigger] g[j as int][k2],
                        ) by {
                            assert(deps@[k2] == g[j as int][k2]);
                        }
                        assert(eligible_at(g, order@, len, j));
                    }
                    chosen = Some(j);
                    break ;
                }
            }
            j = j + 1;
        }
        match chosen {
            Some(c) => {
                let ghost order_old = order@;
                placed[c] = true;
                order.push(c);
                proof {
                    assert forall|p: int, t: usize| 0 <= p <= len implies (placed_before(
                        order@,
                        p,
                        t,
                    ) == placed_before(order_old, p, t)) && (eligible_at(g, order@, p, t)
                        == eligible_at(g, order_old, p, t)) by {
                        assert(order@ == order_old.push(c));
                        lemma_push_keeps_prefix(g, order_old, c, p, t);
                    }
                    assert(order@[len] == c);
                    assert forall|p: int, t: usize|
                        0 <= p < order@.len() && #[trigger] eligible_at(g, order@, p, t) implies
                        order@[p] <= t by {
                        if p < len {
                            assert(eligible_at(g, order_old, p, t));
                            assert(order@[p] == order_old[p]);
                        } else {
                            assert(p == len);
                            assert(eligible_at(g, order_old, len, t));
                            assert(order@[p] == c);
                        }
                    }
                    assert forall|t: usize|
                        (t as int) < n implies (placed@[t as int] <==> placed_before(
                        order@,
                        order@.len() as int,
                        t,
                    )) by {
                        if t == c {
                            assert(placed_before(order@, len + 1, c));
                        } else {
                            if placed_before(order@, len + 1, t) {
                                let q = choose|q: int| 0 <= q < len + 1 && order@[q] == t;
                                assert(q < len);
                                assert(placed_before(order_old, len, t));
                            }
                            if placed_before(order_old, len, t) {
                                let q = choose|q: int| 0 <= q < len && order_old[q] == t;
                                assert(order@[q] == t);
                            }
                        }
                    }
                }
            },
            None => {
                proof {
                    lemma_stuck_means_unschedulable(g, order@);
                }
                return None;
            },
        }
    }
    Some(order)
}

/// Node `i` lists `d` among its dependencies.
pub open spec fn lists_dep(g: Seq<Seq<usize>>, i: usize, d: usize) -> bool {
    exists|k: int| 0 <= k < g[i as int].len() && g[i as int][k] == d
}

/// Two nodes with the same dependency set schedule in registration
/// order: the lower index runs first. With the first-eligible rule,
/// whenever the later-registered one could run, so could the earlier.
pub proof fn lemma_equal_deps_registration_order(
    g: Seq<Seq<usize>>,
    order: Seq<usize>,
    i: usize,
    j: usize,
    pi: int,
    pj: int,
)
    requires
        is_valid_order(g, order),
        first_eligible(g, order),
        (i as int) < g.len(),
        (j as int) < g.len(),
        i < j,
        forall|d: usize| #[trigger] lists_dep(g, i, d) <==> #[trigger] lists_dep(g, j, d),
        0 <= pi < order.len(),
        0 <= pj < order.len(),
        order[pi] == i,
        order[pj] == j,
    ensures
        pi < pj,
{
    if pj < pi {
        assert(eligible_at(g, order, pj, j));
        // i is eligible at pj too: it is not yet scheduled there, and
        // its dependencies equal j's, which are all scheduled.
        assert(!placed_before(order, pj, i)) by {
            if placed_before(order, pj, i) {
                let q = choose|q: int| 0 <= q < pj && order[q] == i;
                assert(eligible_at(g, order, pi, order[pi]));
                assert(placed_before(order, pi, i));
                let q2 = choose|q2: int| 0 <= q2 < pi && order[q2] == i;
                assert(!placed_before(order, pi, order[pi]));
            }
        }
        assert forall|k: int| 0 <= k < g[i as int].len() implies placed_before(
            order,
            pj,
            #[trigger] g[i as int][k],
        ) by {
            let d = g[i as int][k];
            assert(lists_dep(g, i, d));
            assert(lists_dep(g, j, d));
            let k2 = choose|k2: int| 0 <= k2 < g[j as int].len() && g[j as int][k2] == d;
            assert(placed_before(order, pj, g[j as int][k2]));
        }
        assert(eligible_at(g, order, pj, i));
        assert(order[pj] <= i);
        assert(false);
    }
    if pj == pi {
        assert(i == j);
        assert(false);
    }
}

} // verus!
