//! Spatial features over a player's territory: the owned-tile adjacency graph,
//! the HQ-connectivity cut measure (how much of the territory is severed from
//! the HQ when one tile is lost), and Manhattan distances to enemy HQs.

use vstd::prelude::*;
use vstd::set_lib::*;

verus! {

// ---------------------------------------------------------------------------
// Graph model
// ---------------------------------------------------------------------------

/// The adjacency lists as mathematical sequences.
pub open spec fn view_adj(adj: Seq<Vec<usize>>) -> Seq<Seq<usize>> {
    adj.map_values(|v: Vec<usize>| v@)
}

/// Every neighbour index of every node is a node of the graph.
pub open spec fn graph_wf(adj: Seq<Seq<usize>>) -> bool {
    forall|u: int, j: int|
        0 <= u < adj.len() && 0 <= j < adj[u].len() ==> (#[trigger] adj[u][j]) < adj.len()
}

/// Node `v` is a node of the graph and is not the removed node.
pub open spec fn allowed(n: int, exclude: Option<usize>, v: int) -> bool {
    &&& 0 <= v < n
    &&& match exclude {
        Some(e) => v != e as int,
        None => true,
    }
}

/// Nodes reachable from `root` in at most `k` steps, never entering `exclude`.
pub open spec fn reach_within(adj: Seq<Seq<usize>>, root: int, exclude: Option<usize>, k: nat) -> Set<int>
    decreases k,
{
    if k == 0 {
        if allowed(adj.len() as int, exclude, root) {
            set![root]
        } else {
            Set::empty()
        }
    } else {
        let prev = reach_within(adj, root, exclude, (k - 1) as nat);
        prev.union(
            Set::new(
                |v: int|
                    allowed(adj.len() as int, exclude, v) && exists|u: int, j: int|
                        #![trigger prev.contains(u), adj[u][j]]
                        prev.contains(u) && 0 <= j < adj[u].len() && adj[u][j] as int == v,
            ),
        )
    }
}

/// `v` lies in the connected component of `root` once `exclude` is removed.
pub open spec fn reachable(adj: Seq<Seq<usize>>, root: int, exclude: Option<usize>, v: int) -> bool {
    exists|k: nat| #[trigger] reach_within(adj, root, exclude, k).contains(v)
}

/// The connected component of `root` in the graph with `exclude` removed
/// (empty when `root` itself is removed or is not a node).
pub open spec fn component(adj: Seq<Seq<usize>>, root: int, exclude: Option<usize>) -> Set<int> {
    Set::new(|v: int| reachable(adj, root, exclude, v))
}

proof fn lemma_reach_within_allowed(adj: Seq<Seq<usize>>, root: int, exclude: Option<usize>, k: nat)
    ensures
        forall|v: int| #[trigger]
            reach_within(adj, root, exclude, k).contains(v) ==> allowed(adj.len() as int, exclude, v),
    decreases k,
{
    if k > 0 {
        lemma_reach_within_allowed(adj, root, exclude, (k - 1) as nat);
        let prev = reach_within(adj, root, exclude, (k - 1) as nat);
        assert forall|v: int| #[trigger]
            reach_within(adj, root, exclude, k).contains(v) implies allowed(adj.len() as int, exclude, v) by {
            if !prev.contains(v) {
                assert(Set::new(
                    |v: int|
                        allowed(adj.len() as int, exclude, v) && exists|u: int, j: int|
                            #![trigger prev.contains(u), adj[u][j]]
                            prev.contains(u) && 0 <= j < adj[u].len() && adj[u][j] as int == v,
                ).contains(v));
            }
        }
    }
}

/// A set that holds `root` and is closed under allowed neighbours contains the
/// whole component.
proof fn lemma_closed_contains_reach(
    adj: Seq<Seq<usize>>,
    root: int,
    exclude: Option<usize>,
    s: Set<int>,
    k: nat,
)
    requires
        allowed(adj.len() as int, exclude, root) ==> s.contains(root),
        forall|u: int, j: int|
            #![trigger s.contains(u), adj[u][j]]
            s.contains(u) && 0 <= u < adj.len() && 0 <= j < adj[u].len() && allowed(
                adj.len() as int,
                exclude,
                adj[u][j] as int,
            ) ==> s.contains(adj[u][j] as int),
    ensures
        reach_within(adj, root, exclude, k).subset_of(s),
    decreases k,
{
    if k > 0 {
        lemma_closed_contains_reach(adj, root, exclude, s, (k - 1) as nat);
        let prev = reach_within(adj, root, exclude, (k - 1) as nat);
        lemma_reach_within_allowed(adj, root, exclude, (k - 1) as nat);
        assert forall|v: int| reach_within(adj, root, exclude, k).contains(v) implies s.contains(v) by {
            if !prev.contains(v) {
                let (u, j) = choose|u: int, j: int|
                    #![trigger prev.contains(u), adj[u][j]]
                    prev.contains(u) && 0 <= j < adj[u].len() && adj[u][j] as int == v;
                assert(s.contains(u));
                assert(allowed(adj.len() as int, exclude, u));
            }
        }
    }
}

proof fn lemma_component_bounded(adj: Seq<Seq<usize>>, root: int, exclude: Option<usize>)
    ensures
        component(adj, root, exclude).subset_of(set_int_range(0, adj.len() as int)),
        component(adj, root, exclude).finite(),
        component(adj, root, exclude).len() <= adj.len(),
{
    assert forall|v: int| #[trigger] component(adj, root, exclude).contains(v) implies set_int_range(
        0,
        adj.len() as int,
    ).contains(v) by {
        let k = choose|k: nat| #[trigger] reach_within(adj, root, exclude, k).contains(v);
        lemma_reach_within_allowed(adj, root, exclude, k);
    }
    lemma_int_range(0, adj.len() as int);
    lemma_len_subset(component(adj, root, exclude), set_int_range(0, adj.len() as int));
}

fn is_excluded(v: usize, exclude: Option<usize>) -> (r: bool)
    ensures
        r == !allowed(usize::MAX as int + 1, exclude, v as int),
{
    match exclude {
        Some(e) => v == e,
        None => false,
    }
}

/// Size of the connected component containing `root` in the undirected graph
/// `adj`, with node `exclude` treated as removed. 0 when `root` is removed or is
/// not a node.
pub fn component_size(adj: &Vec<Vec<usize>>, root: usize, exclude: Option<usize>) -> (r: usize)
    requires
        graph_wf(view_adj(adj@)),
    ensures
        r == component(view_adj(adj@), root as int, exclude).len(),
        r <= adj@.len(),
        exclude == Some(root) ==> r == 0,
{
    let ghost g = view_adj(adj@);
    let n = adj.len();
    if is_excluded(root, exclude) || root >= n {
        proof {
            assert(component(g, root as int, exclude) =~= Set::<int>::empty()) by {
                assert forall|v: int| !#[trigger] component(g, root as int, exclude).contains(v) by {
                    if component(g, root as int, exclude).contains(v) {
                        let k = choose|k: nat| #[trigger] reach_within(g, root as int, exclude, k).contains(v);
                        lemma_reach_empty(g, root as int, exclude, k);
                    }
                }
            }
        }
        proof {
            lemma_component_bounded(g, root as int, exclude);
        }
        return 0;
    }
    let mut seen: Vec<bool> = Vec::new();
    let mut i: usize = 0;
    while i < n
        invariant
            i <= n,
            n == g.len(),
            seen@.len() == i,
            forall|v: int| 0 <= v < i ==> !(#[trigger] seen@[v]),
        decreases n - i,
    {
        seen.push(false);
        i = i + 1;
    }
    let mut stack: Vec<usize> = Vec::new();
    stack.push(root);
    seen.set(root, true);
    let ghost mut popped: Set<int> = Set::empty();
    let mut count: usize = 0;
    proof {
        assert(reach_within(g, root as int, exclude, 0).contains(root as int));
        assert(stack@[0] as int == root as int);
        assert forall|v: int| 0 <= v < n && #[trigger] seen@[v] implies v == root as int by {}
    }
    while stack.len() > 0
        invariant
            n == g.len(),
            view_adj(adj@) == g,
            graph_wf(g),
            allowed(n as int, exclude, root as int),
            seen@.len() == n,
            seen@[root as int],
            popped.finite(),
            count == popped.len(),
            popped.subset_of(set_int_range(0, n as int)),
            forall|v: int| #[trigger] popped.contains(v) ==> 0 <= v < n && seen@[v],
            forall|a: int| 0 <= a < stack@.len() ==> seen@[#[trigger] stack@[a] as int],
            forall|v: int|
                0 <= v < n && #[trigger] seen@[v] ==> popped.contains(v) || exists|a: int|
                    0 <= a < stack@.len() && #[trigger] stack@[a] as int == v,
            forall|a: int| 0 <= a < stack@.len() ==> (#[trigger] stack@[a]) < n,
            forall|a: int| 0 <= a < stack@.len() ==> !popped.contains(#[trigger] stack@[a] as int),
            forall|a: int, b: int|
                0 <= a < b < stack@.len() ==> (#[trigger] stack@[a]) != (#[trigger] stack@[b]),
            forall|v: int| 0 <= v < n && #[trigger] seen@[v] ==> reachable(g, root as int, exclude, v),
            forall|v: int| 0 <= v < n && #[trigger] seen@[v] ==> allowed(n as int, exclude, v),
            forall|u: int, j: int|
                #![trigger popped.contains(u), g[u][j]]
                popped.contains(u) && 0 <= j < g[u].len() && allowed(n as int, exclude, g[u][j] as int)
                    ==> seen@[g[u][j] as int],
        decreases n - popped.len(),
    {
        let ghost old_stack = stack@;
        let ghost old_popped = popped;
        let u = stack.pop().unwrap();
        {
            {
                proof {
                    lemma_int_range(0, n as int);
                    assert(u == old_stack[old_stack.len() - 1]);
                    assert(!popped.contains(u as int));
                    assert(popped.insert(u as int).subset_of(set_int_range(0, n as int)));
                    lemma_len_subset(popped.insert(u as int), set_int_range(0, n as int));
                    popped = popped.insert(u as int);
                    assert forall|v: int|
                        0 <= v < n && #[trigger] seen@[v] implies popped.contains(v) || exists|a: int|
                            0 <= a < stack@.len() && #[trigger] stack@[a] as int == v by {
                        if !old_popped.contains(v) && v != u as int {
                            let a = choose|a: int|
                                0 <= a < old_stack.len() && #[trigger] old_stack[a] as int == v;
                            assert(a != old_stack.len() - 1);
                            assert(stack@[a] == old_stack[a]);
                        }
                    }
                    assert forall|a: int| 0 <= a < stack@.len() implies !popped.contains(
                        #[trigger] stack@[a] as int,
                    ) by {
                        assert(stack@[a] == old_stack[a]);
                        assert(old_stack[a] != old_stack[old_stack.len() - 1]);
                    }
                }
                count = count + 1;
                let nbrs = &adj[u];
                let deg = nbrs.len();
                let mut j: usize = 0;
                while j < deg
                    invariant
                        n == g.len(),
                        view_adj(adj@) == g,
                        graph_wf(g),
                        nbrs@ == g[u as int],
                        deg == nbrs@.len(),
                        j <= deg,
                        u < n,
                        popped.contains(u as int),
                        allowed(n as int, exclude, root as int),
                        seen@.len() == n,
                        seen@[root as int],
                        popped.finite(),
                        count == popped.len(),
                        popped.subset_of(set_int_range(0, n as int)),
                        forall|v: int| #[trigger] popped.contains(v) ==> 0 <= v < n && seen@[v],
                        forall|a: int| 0 <= a < stack@.len() ==> seen@[#[trigger] stack@[a] as int],
                        forall|v: int|
                            0 <= v < n && #[trigger] seen@[v] ==> popped.contains(v) || exists|a: int|
                                0 <= a < stack@.len() && #[trigger] stack@[a] as int == v,
                        forall|a: int| 0 <= a < stack@.len() ==> (#[trigger] stack@[a]) < n,
                        forall|a: int|
                            0 <= a < stack@.len() ==> !popped.contains(#[trigger] stack@[a] as int),
                        forall|a: int, b: int|
                            0 <= a < b < stack@.len() ==> (#[trigger] stack@[a]) != (
                            #[trigger] stack@[b]),
                        forall|v: int|
                            0 <= v < n && #[trigger] seen@[v] ==> reachable(g, root as int, exclude, v),
                        forall|v: int|
                            0 <= v < n && #[trigger] seen@[v] ==> allowed(n as int, exclude, v),
                        forall|w: int, k: int|
                            #![trigger popped.contains(w), g[w][k]]
                            popped.contains(w) && w != u && 0 <= k < g[w].len() && allowed(
                                n as int,
                                exclude,
                                g[w][k] as int,
                            ) ==> seen@[g[w][k] as int],
                        forall|k: int|
                            0 <= k < j && allowed(n as int, exclude, g[u as int][k] as int)
                                ==> seen@[#[trigger] g[u as int][k] as int],
                    decreases deg - j,
                {
                    let v = nbrs[j];
                    proof {
                        assert(g[u as int][j as int] == v);
                    }
                    if !is_excluded(v, exclude) && !seen[v] {
                        proof {
                            // v is one step beyond the reachable node u
                            assert(seen@[u as int]);
                            let k = choose|k: nat| #[trigger]
                                reach_within(g, root as int, exclude, k).contains(u as int);
                            let prev = reach_within(g, root as int, exclude, k);
                            assert(prev.contains(u as int) && 0 <= j < g[u as int].len()
                                && g[u as int][j as int] as int == v as int);
                            assert(reach_within(g, root as int, exclude, k + 1).contains(v as int));
                            assert forall|a: int| 0 <= a < stack@.len() implies stack@[a] != v by {
                                assert(seen@[stack@[a] as int]);
                            }
                        }
                        let ghost pre_stack = stack@;
                        let ghost pre_seen = seen@;
                        seen.set(v, true);
                        stack.push(v);
                        proof {
                            assert(stack@[pre_stack.len() as int] == v);
                            assert forall|x: int|
                                0 <= x < n && #[trigger] seen@[x] implies popped.contains(x) || exists|a: int|
                                    0 <= a < stack@.len() && #[trigger] stack@[a] as int == x by {
                                if x != v as int && !popped.contains(x) {
                                    assert(pre_seen[x]);
                                    let a = choose|a: int|
                                        0 <= a < pre_stack.len() && #[trigger] pre_stack[a] as int == x;
                                    assert(stack@[a] == pre_stack[a]);
                                }
                            }
                        }
                    }
                    j = j + 1;
                }
            }
        }
    }
    proof {
        // every seen node was popped, and the seen set is closed: it is the component
        let c = component(g, root as int, exclude);
        assert forall|u: int, k: int|
            #![trigger popped.contains(u), g[u][k]]
            popped.contains(u) && 0 <= u < g.len() && 0 <= k < g[u].len() && allowed(
                g.len() as int,
                exclude,
                g[u][k] as int,
            ) implies popped.contains(g[u][k] as int) by {
            assert(seen@[g[u][k] as int]);
            assert(stack@.len() == 0);
        }
        assert forall|v: int| c.contains(v) implies popped.contains(v) by {
            let k = choose|k: nat| #[trigger] reach_within(g, root as int, exclude, k).contains(v);
            lemma_closed_contains_reach(g, root as int, exclude, popped, k);
        }
        assert forall|v: int| popped.contains(v) implies c.contains(v) by {
            assert(seen@[v]);
        }
        assert(c =~= popped);
        lemma_component_bounded(g, root as int, exclude);
    }
    count
}

proof fn lemma_reach_empty(adj: Seq<Seq<usize>>, root: int, exclude: Option<usize>, k: nat)
    requires
        !allowed(adj.len() as int, exclude, root),
    ensures
        reach_within(adj, root, exclude, k) =~= Set::<int>::empty(),
    decreases k,
{
    if k > 0 {
        lemma_reach_empty(adj, root, exclude, (k - 1) as nat);
        let prev = reach_within(adj, root, exclude, (k - 1) as nat);
        assert forall|v: int| !#[trigger] reach_within(adj, root, exclude, k).contains(v) by {
            if reach_within(adj, root, exclude, k).contains(v) {
                assert(!prev.contains(v));
                let (u, j) = choose|u: int, j: int|
                    #![trigger prev.contains(u), adj[u][j]]
                    prev.contains(u) && 0 <= j < adj[u].len() && adj[u][j] as int == v;
                assert(false);
            }
        }
    }
}


/// Removing a node never enlarges a component.
proof fn lemma_reach_exclude_subset(adj: Seq<Seq<usize>>, root: int, t: usize, k: nat)
    ensures
        reach_within(adj, root, Some(t), k).subset_of(reach_within(adj, root, None, k)),
        !reach_within(adj, root, Some(t), k).contains(t as int),
    decreases k,
{
    lemma_reach_within_allowed(adj, root, Some(t), k);
    if k > 0 {
        lemma_reach_exclude_subset(adj, root, t, (k - 1) as nat);
        let pe = reach_within(adj, root, Some(t), (k - 1) as nat);
        let pn = reach_within(adj, root, None, (k - 1) as nat);
        assert forall|v: int| #[trigger]
            reach_within(adj, root, Some(t), k).contains(v) implies reach_within(adj, root, None, k).contains(v) by {
            if !pe.contains(v) {
                let (u, j) = choose|u: int, j: int|
                    #![trigger pe.contains(u), adj[u][j]]
                    pe.contains(u) && 0 <= j < adj[u].len() && adj[u][j] as int == v;
                assert(pn.contains(u));
            }
        }
    }
}

/// The component with `t` removed is the full component minus `t` minus the
/// nodes that were only reachable through `t`.
pub proof fn lemma_component_exclude_subset(adj: Seq<Seq<usize>>, root: int, t: usize)
    ensures
        component(adj, root, Some(t)).subset_of(component(adj, root, None).remove(t as int)),
        component(adj, root, Some(t)).len() <= component(adj, root, None).len(),
{
    assert forall|v: int| #[trigger] component(adj, root, Some(t)).contains(v) implies component(
        adj,
        root,
        None,
    ).remove(t as int).contains(v) by {
        let k = choose|k: nat| #[trigger] reach_within(adj, root, Some(t), k).contains(v);
        lemma_reach_exclude_subset(adj, root, t, k);
        assert(reach_within(adj, root, None, k).contains(v));
    }
    lemma_component_bounded(adj, root, None);
    lemma_component_bounded(adj, root, Some(t));
    vstd::set_lib::lemma_len_subset(component(adj, root, Some(t)), component(adj, root, None));
}

/// The HQ-cut measure of node `t` as an exact fraction `numerator / denominator`:
/// 0 when the HQ component has at most one node, 1 for the HQ itself, else the
/// number of other nodes severed from the HQ over the number of other nodes.
pub open spec fn spec_cut_fraction(adj: Seq<Seq<usize>>, hq: int, t: int) -> (int, int) {
    let base = component(adj, hq, None).len() as int;
    if base <= 1 {
        (0, 1)
    } else if t == hq {
        (1, 1)
    } else {
        let without = component(adj, hq, Some(t as usize)).len() as int;
        let d = base - without - 1;
        (if d > 0 { d } else { 0 }, base - 1)
    }
}

/// Fraction of the HQ-component (excluding the tile itself) that is cut off if
/// node `t` is removed, returned exactly as `(numerator, denominator)`.
///
/// 0 for a leaf or a node outside the HQ component; 1 for the HQ node itself;
/// `k/(base-1)` for an articulation point that severs `k` other nodes.
pub fn cut_fraction(adj: &Vec<Vec<usize>>, hq: usize, t: usize) -> (r: (usize, usize))
    requires
        graph_wf(view_adj(adj@)),
    ensures
        r.0 as int == spec_cut_fraction(view_adj(adj@), hq as int, t as int).0,
        r.1 as int == spec_cut_fraction(view_adj(adj@), hq as int, t as int).1,
        r.1 > 0,
        r.0 <= r.1,
        // the numerator counts exactly the nodes other than `t` severed from the HQ
        hq != t && component(view_adj(adj@), hq as int, None).len() > 1 && component(view_adj(adj@), hq as int, None).contains(t as int)
            ==> r.0 as int == component(view_adj(adj@), hq as int, None).difference(
            component(view_adj(adj@), hq as int, Some(t)),
        ).remove(t as int).len(),
{
    let base = component_size(adj, hq, None);
    if base <= 1 {
        return (0, 1);
    }
    if t == hq {
        return (1, 1);
    }
    let without = component_size(adj, hq, Some(t));
    proof {
        let full = component(view_adj(adj@), hq as int, None);
        let part = component(view_adj(adj@), hq as int, Some(t));
        lemma_component_bounded(view_adj(adj@), hq as int, None);
        lemma_component_bounded(view_adj(adj@), hq as int, Some(t));
        lemma_component_exclude_subset(view_adj(adj@), hq as int, t);
        lemma_len_subset(part, full);
        if full.contains(t as int) {
            lemma_len_subset(part, full.remove(t as int));
            let diff = full.difference(part);
            assert(full =~= part.union(diff));
            lemma_set_disjoint_lens(part, diff);
            assert(diff.contains(t as int));
            assert(diff.len() == full.len() - part.len());
            assert(diff.remove(t as int).len() == diff.len() - 1);
        }
    }
    let d: usize = if base - 1 > without { base - 1 - without } else { 0 };
    (d, base - 1)
}


// ---------------------------------------------------------------------------
// The owned-tile graph of one player
// ---------------------------------------------------------------------------

/// Tile `i` is owned by player `p`.
pub open spec fn owns(owners: Seq<Option<usize>>, p: usize, i: int) -> bool {
    owners[i] == Some(p)
}

/// The local node indices of the owned tiles among `nbrs`, in order.
pub open spec fn owned_neighbours(nbrs: Seq<usize>, local_of: Seq<Option<usize>>) -> Seq<usize>
    decreases nbrs.len(),
{
    if nbrs.len() == 0 {
        seq![]
    } else {
        let rest = owned_neighbours(nbrs.drop_last(), local_of);
        let n = nbrs.last() as int;
        if n < local_of.len() && local_of[n] is Some {
            rest.push(local_of[n]->0)
        } else {
            rest
        }
    }
}

/// The owned tiles among the first `i` tiles, in increasing order.
pub open spec fn owned_tiles_upto(owners: Seq<Option<usize>>, p: usize, i: int) -> Seq<usize>
    decreases i,
{
    if i <= 0 {
        seq![]
    } else {
        let prev = owned_tiles_upto(owners, p, i - 1);
        if owns(owners, p, i - 1) {
            prev.push((i - 1) as usize)
        } else {
            prev
        }
    }
}

/// Tile index → local node index: an owned tile's node is its rank among the
/// owned tiles.
pub open spec fn spec_local_of(owners: Seq<Option<usize>>, p: usize) -> Seq<Option<usize>> {
    Seq::new(
        owners.len(),
        |x: int|
            if owns(owners, p, x) {
                Some(owned_tiles_upto(owners, p, x).len() as usize)
            } else {
                None
            },
    )
}

/// The owned-tile graph of player `p`: node `l` is the `l`-th owned tile and is
/// adjacent to its owned orthogonal neighbours.
pub open spec fn spec_owned_adj(owners: Seq<Option<usize>>, neighbours: Seq<Vec<usize>>, p: usize) -> Seq<
    Seq<usize>,
> {
    owned_tiles_upto(owners, p, owners.len() as int).map_values(
        |t: usize| owned_neighbours(neighbours[t as int]@, spec_local_of(owners, p)),
    )
}

/// The local node of player `p`'s HQ, if the HQ tile is owned by `p`.
pub open spec fn spec_hq_local(owners: Seq<Option<usize>>, hq_tile: Option<usize>, p: usize) -> Option<
    usize,
> {
    match hq_tile {
        Some(h) => if h < owners.len() {
            spec_local_of(owners, p)[h as int]
        } else {
            None
        },
        None => None,
    }
}

/// The HQ-cut measure of tile `tile` in player `p`'s owned graph: `(0, 1)` when
/// the tile is not owned by `p` or `p` has no owned HQ.
pub open spec fn spec_tile_cut(
    owners: Seq<Option<usize>>,
    neighbours: Seq<Vec<usize>>,
    hq_tile: Option<usize>,
    p: usize,
    tile: int,
) -> (int, int) {
    let lo = spec_local_of(owners, p);
    match spec_hq_local(owners, hq_tile, p) {
        Some(h) => if 0 <= tile < lo.len() && lo[tile] is Some {
            spec_cut_fraction(spec_owned_adj(owners, neighbours, p), h as int, lo[tile]->0 as int)
        } else {
            (0, 1)
        },
        None => (0, 1),
    }
}

/// The owned-tile orthogonal-adjacency graph for one player, with the lookup
/// from tile index to local node index and the HQ's local node (if owned).
pub struct OwnedGraph {
    adj: Vec<Vec<usize>>,
    /// tile index → local node index (`None` for tiles the player does not own)
    local_of: Vec<Option<usize>>,
    hq: Option<usize>,
    /// local node index → tile index
    pub tiles: Vec<usize>,
}

impl OwnedGraph {
    /// The graph's adjacency lists.
    pub closed spec fn spec_adj(&self) -> Seq<Vec<usize>> {
        self.adj@
    }

    /// The tile-to-node lookup.
    pub closed spec fn spec_local_of(&self) -> Seq<Option<usize>> {
        self.local_of@
    }

    /// Local node index → tile index.
    pub closed spec fn spec_tiles(&self) -> Seq<usize> {
        self.tiles@
    }

    /// The HQ's local node.
    pub closed spec fn spec_hq(&self) -> Option<usize> {
        self.hq
    }

    /// Internal consistency: nodes and tiles correspond one to one, every
    /// adjacency entry is a node, and the HQ (if any) is a node.
    pub open spec fn wf(&self) -> bool {
        &&& graph_wf(view_adj(self.spec_adj()))
        &&& self.spec_adj().len() == self.spec_tiles().len()
        &&& (self.spec_hq() matches Some(h) ==> h < self.spec_tiles().len())
        &&& forall|l: int|
            0 <= l < self.spec_tiles().len() ==> (#[trigger] self.spec_tiles()[l]) < self.spec_local_of().len()
                && self.spec_local_of()[self.spec_tiles()[l] as int] == Some(l as usize)
        &&& forall|x: int|
            0 <= x < self.spec_local_of().len() && (#[trigger] self.spec_local_of()[x]) is Some ==> (
            self.spec_local_of()[x]->0) < self.spec_tiles().len() && self.spec_tiles()[self.spec_local_of()[x]->0 as int] == x
    }

    /// Build the owned graph of player `p`. `owners[i]` is the owner of tile `i`,
    /// `neighbours[i]` its orthogonal neighbour tiles and `hq_tile` the player's
    /// HQ tile, if it has one.
    pub fn build(
        owners: &Vec<Option<usize>>,
        neighbours: &Vec<Vec<usize>>,
        hq_tile: Option<usize>,
        p: usize,
    ) -> (r: OwnedGraph)
        requires
            neighbours@.len() == owners@.len(),
        ensures
            r.wf(),
            r.spec_local_of() == spec_local_of(owners@, p),
            r.spec_tiles() == owned_tiles_upto(owners@, p, owners@.len() as int),
            view_adj(r.spec_adj()) == spec_owned_adj(owners@, neighbours@, p),
            r.spec_hq() == spec_hq_local(owners@, hq_tile, p),
            r.spec_local_of().len() == owners@.len(),
            // the nodes are exactly the owned tiles, in increasing tile order
            forall|x: int|
                0 <= x < owners@.len() ==> (owns(owners@, p, x) <==> #[trigger] r.spec_local_of()[x]
                    is Some),
            forall|a: int, b: int|
                0 <= a < b < r.spec_tiles().len() ==> (#[trigger] r.spec_tiles()[a]) < (#[trigger] r.spec_tiles()[b]),
            // each node is adjacent to exactly its owned orthogonal neighbours, in order
            forall|l: int|
                0 <= l < r.spec_tiles().len() ==> (#[trigger] r.spec_adj()[l])@ == owned_neighbours(
                    neighbours@[r.spec_tiles()[l] as int]@,
                    r.spec_local_of(),
                ),
            r.spec_hq() == (match hq_tile {
                Some(h) => if h < owners@.len() {
                    r.spec_local_of()[h as int]
                } else {
                    None
                },
                None => None,
            }),
    {
        let n = owners.len();
        let mut tiles: Vec<usize> = Vec::new();
        let mut local_of: Vec<Option<usize>> = Vec::new();
        let mut i: usize = 0;
        while i < n
            invariant
                i <= n,
                n == owners@.len(),
                local_of@.len() == i,
                tiles@ == owned_tiles_upto(owners@, p, i as int),
                forall|x: int| 0 <= x < i ==> #[trigger] local_of@[x] == spec_local_of(owners@, p)[x],
                forall|x: int| 0 <= x < i ==> (owns(owners@, p, x) <==> #[trigger] local_of@[x] is Some),
                forall|l: int|
                    0 <= l < tiles@.len() ==> (#[trigger] tiles@[l]) < i && local_of@[tiles@[l] as int]
                        == Some(l as usize),
                forall|x: int|
                    0 <= x < i && (#[trigger] local_of@[x]) is Some ==> (local_of@[x]->0) < tiles@.len()
                        && tiles@[local_of@[x]->0 as int] == x,
                forall|a: int, b: int|
                    0 <= a < b < tiles@.len() ==> (#[trigger] tiles@[a]) < (#[trigger] tiles@[b]),
            decreases n - i,
        {
            let mine = match owners[i] {
                Some(o) => o == p,
                None => false,
            };
            if mine {
                local_of.push(Some(tiles.len()));
                tiles.push(i);
            } else {
                local_of.push(None);
            }
            proof {
                assert(local_of@[i as int] is Some <==> owns(owners@, p, i as int));
                assert(local_of@[i as int] == spec_local_of(owners@, p)[i as int]);
            }
            i = i + 1;
        }
        proof {
            assert(local_of@ =~= spec_local_of(owners@, p));
        }
        let m = tiles.len();
        let mut adj: Vec<Vec<usize>> = Vec::new();
        let mut l: usize = 0;
        while l < m
            invariant
                l <= m,
                m == tiles@.len(),
                n == owners@.len(),
                n == neighbours@.len(),
                local_of@.len() == n,
                adj@.len() == l,
                forall|t: int|
                    0 <= t < tiles@.len() ==> (#[trigger] tiles@[t]) < n && local_of@[tiles@[t] as int]
                        == Some(t as usize),
                forall|x: int|
                    0 <= x < n && (#[trigger] local_of@[x]) is Some ==> (local_of@[x]->0) < tiles@.len()
                        && tiles@[local_of@[x]->0 as int] == x,
                forall|t: int|
                    0 <= t < l ==> (#[trigger] adj@[t])@ == owned_neighbours(
                        neighbours@[tiles@[t] as int]@,
                        local_of@,
                    ),
                forall|t: int, j: int|
                    0 <= t < l && 0 <= j < adj@[t]@.len() ==> (#[trigger] adj@[t]@[j]) < m,
            decreases m - l,
        {
            let nbrs = &neighbours[tiles[l]];
            let mut row: Vec<usize> = Vec::new();
            let mut k: usize = 0;
            while k < nbrs.len()
                invariant
                    k <= nbrs@.len(),
                    m == tiles@.len(),
                    n == local_of@.len(),
                    forall|x: int|
                        0 <= x < n && (#[trigger] local_of@[x]) is Some ==> (local_of@[x]->0) < tiles@.len()
                            && tiles@[local_of@[x]->0 as int] == x,
                    row@ == owned_neighbours(nbrs@.take(k as int), local_of@),
                    forall|j: int| 0 <= j < row@.len() ==> (#[trigger] row@[j]) < m,
                decreases nbrs@.len() - k,
            {
                let t = nbrs[k];
                proof {
                    assert(nbrs@.take(k + 1).drop_last() =~= nbrs@.take(k as int));
                    assert(nbrs@.take(k + 1).last() == t);
                }
                if t < n {
                    match local_of[t] {
                        Some(nl) => {
                            row.push(nl);
                        },
                        None => {},
                    }
                }
                k = k + 1;
            }
            proof {
                assert(nbrs@.take(nbrs@.len() as int) =~= nbrs@);
            }
            adj.push(row);
            l = l + 1;
        }
        let hq = match hq_tile {
            Some(h) => if h < n {
                local_of[h]
            } else {
                None
            },
            None => None,
        };
        let r = OwnedGraph { adj, local_of, hq, tiles };
        proof {
            assert(view_adj(r.spec_adj()) =~= spec_owned_adj(owners@, neighbours@, p));
        }
        r
    }

    /// Number of owned tiles.
    pub fn owned_count(&self) -> (r: usize)
        ensures
            r == self.spec_tiles().len(),
    {
        self.tiles.len()
    }

    /// The HQ-cut measure of one tile (by tile index) as `(numerator,
    /// denominator)`: 0 when the tile isn't owned or there is no owned HQ.
    pub fn cut_fraction_of(&self, tile_index: usize) -> (r: (usize, usize))
        requires
            self.wf(),
        ensures
            ({
                let lo = self.spec_local_of();
                match self.spec_hq() {
                    Some(h) => if tile_index < lo.len() && lo[tile_index as int] is Some {
                        r.0 as int == spec_cut_fraction(view_adj(self.spec_adj()), h as int, lo[tile_index as int]->0 as int).0
                            && r.1 as int == spec_cut_fraction(
                            view_adj(self.spec_adj()),
                            h as int,
                            lo[tile_index as int]->0 as int,
                        ).1
                    } else {
                        r == (0usize, 1usize)
                    },
                    None => r == (0usize, 1usize),
                }
            }),
            r.1 > 0,
            r.0 <= r.1,
    {
        match self.hq {
            None => (0, 1),
            Some(h) => {
                if tile_index < self.local_of.len() {
                    match self.local_of[tile_index] {
                        Some(local) => cut_fraction(&self.adj, h, local),
                        None => (0, 1),
                    }
                } else {
                    (0, 1)
                }
            },
        }
    }
}


/// Cut-vulnerability of one tile of player `p` (builds `p`'s owned graph once).
pub fn cut_vulnerability(
    owners: &Vec<Option<usize>>,
    neighbours: &Vec<Vec<usize>>,
    hq_tile: Option<usize>,
    p: usize,
    tile: usize,
) -> (r: (usize, usize))
    requires
        neighbours@.len() == owners@.len(),
    ensures
        r.0 as int == spec_tile_cut(owners@, neighbours@, hq_tile, p, tile as int).0,
        r.1 as int == spec_tile_cut(owners@, neighbours@, hq_tile, p, tile as int).1,
        r.1 > 0,
        r.0 <= r.1,
{
    let g = OwnedGraph::build(owners, neighbours, hq_tile, p);
    g.cut_fraction_of(tile)
}

/// The owner of `tile` is an enemy of `attacker`.
pub open spec fn enemy_owner(owners: Seq<Option<usize>>, attacker: usize, tile: int) -> Option<usize> {
    if 0 <= tile < owners.len() {
        match owners[tile] {
            Some(o) => if o != attacker {
                Some(o)
            } else {
                None
            },
            None => None,
        }
    } else {
        None
    }
}

/// Offensive cut-value: if `attacker` takes `target`, the fraction of the
/// target owner's territory that disconnects from that owner's HQ (computed on
/// the owner's graph). `(0, 1)` when the target is neutral or the attacker's
/// own. `hq_of[q]` is player `q`'s HQ tile, if any.
pub fn offensive_cut_value(
    owners: &Vec<Option<usize>>,
    neighbours: &Vec<Vec<usize>>,
    hq_of: &Vec<Option<usize>>,
    attacker: usize,
    target: usize,
) -> (r: (usize, usize))
    requires
        neighbours@.len() == owners@.len(),
    ensures
        match enemy_owner(owners@, attacker, target as int) {
            Some(o) => {
                let hq = if o < hq_of@.len() {
                    hq_of@[o as int]
                } else {
                    None
                };
                r.0 as int == spec_tile_cut(owners@, neighbours@, hq, o, target as int).0 && r.1 as int
                    == spec_tile_cut(owners@, neighbours@, hq, o, target as int).1
            },
            None => r == (0usize, 1usize),
        },
        r.1 > 0,
        r.0 <= r.1,
{
    if target < owners.len() {
        match owners[target] {
            Some(o) => {
                if o != attacker {
                    let hq = if o < hq_of.len() {
                        hq_of[o]
                    } else {
                        None
                    };
                    return cut_vulnerability(owners, neighbours, hq, o, target);
                }
            },
            None => {},
        }
    }
    (0, 1)
}

/// Offensive cut-value on a pre-built graph of the target's owner.
pub fn offensive_cut_value_on(graph: &OwnedGraph, target: usize) -> (r: (usize, usize))
    requires
        graph.wf(),
    ensures
        ({
            let lo = graph.spec_local_of();
            match graph.spec_hq() {
                Some(h) => if target < lo.len() && lo[target as int] is Some {
                    r.0 as int == spec_cut_fraction(view_adj(graph.spec_adj()), h as int, lo[target as int]->0 as int).0
                        && r.1 as int == spec_cut_fraction(
                        view_adj(graph.spec_adj()),
                        h as int,
                        lo[target as int]->0 as int,
                    ).1
                } else {
                    r == (0usize, 1usize)
                },
                None => r == (0usize, 1usize),
            }
        }),
        r.1 > 0,
        r.0 <= r.1,
{
    graph.cut_fraction_of(target)
}

// ---------------------------------------------------------------------------
// Manhattan distances to enemy HQs
// ---------------------------------------------------------------------------

/// Manhattan distance between two grid cells.
pub open spec fn manhattan(a: (i32, i32), b: (i32, i32)) -> int {
    let dx = a.0 - b.0;
    let dy = a.1 - b.1;
    (if dx < 0 { -dx } else { dx }) + (if dy < 0 { -dy } else { dy })
}

/// The smallest Manhattan distance from `from` to any of `hqs`, capped by the
/// sentinel 99 (also the value when `hqs` is empty).
pub open spec fn min_dist_capped(from: (i32, i32), hqs: Seq<(i32, i32)>) -> int
    decreases hqs.len(),
{
    if hqs.len() == 0 {
        99
    } else {
        let rest = min_dist_capped(from, hqs.drop_last());
        let d = manhattan(from, hqs.last());
        if d < rest {
            d
        } else {
            rest
        }
    }
}

/// All distances from `from` to `hqs` fit the i32 arithmetic.
pub open spec fn dists_fit(from: (i32, i32), hqs: Seq<(i32, i32)>) -> bool {
    forall|i: int| 0 <= i < hqs.len() ==> manhattan(from, #[trigger] hqs[i]) <= i32::MAX
}

pub(crate) fn manhattan_exec(a: (i32, i32), b: (i32, i32)) -> (r: i32)
    requires
        manhattan(a, b) <= i32::MAX,
    ensures
        r == manhattan(a, b),
{
    let dx: i32 = if a.0 >= b.0 {
        a.0 - b.0
    } else {
        b.0 - a.0
    };
    let dy: i32 = if a.1 >= b.1 {
        a.1 - b.1
    } else {
        b.1 - a.1
    };
    dx + dy
}

fn min_dist_exec(from: (i32, i32), hqs: &Vec<(i32, i32)>) -> (r: i32)
    requires
        dists_fit(from, hqs@),
    ensures
        r == min_dist_capped(from, hqs@),
{
    let mut best: i32 = 99;
    let mut i: usize = 0;
    while i < hqs.len()
        invariant
            i <= hqs@.len(),
            dists_fit(from, hqs@),
            best == min_dist_capped(from, hqs@.take(i as int)),
        decreases hqs@.len() - i,
    {
        proof {
            assert(hqs@.take(i + 1).drop_last() =~= hqs@.take(i as int));
            assert(hqs@.take(i + 1).last() == hqs@[i as int]);
        }
        let d = manhattan_exec(from, hqs[i]);
        if d < best {
            best = d;
        }
        i = i + 1;
    }
    proof {
        assert(hqs@.take(hqs@.len() as int) =~= hqs@);
    }
    best
}

/// Min Manhattan distance from tile `(tx, ty)` to any live enemy HQ
/// (`enemy_hqs`); sentinel 99 when there is none.
pub fn dist_to_enemy_hq(tx: i32, ty: i32, enemy_hqs: &Vec<(i32, i32)>) -> (r: i32)
    requires
        dists_fit((tx, ty), enemy_hqs@),
    ensures
        r == min_dist_capped((tx, ty), enemy_hqs@),
        r <= 99,
{
    proof {
        lemma_min_dist_le_99((tx, ty), enemy_hqs@);
    }
    min_dist_exec((tx, ty), enemy_hqs)
}

/// Min Manhattan distance between the own HQ and the nearest enemy HQ; 99 when
/// there is no own HQ or no enemy HQ.
pub fn hq_to_hq_dist(own_hq: Option<(i32, i32)>, enemy_hqs: &Vec<(i32, i32)>) -> (r: i32)
    requires
        own_hq matches Some(o) ==> dists_fit(o, enemy_hqs@),
    ensures
        r == match own_hq {
            Some(o) => min_dist_capped(o, enemy_hqs@),
            None => 99,
        },
{
    match own_hq {
        Some(o) => min_dist_exec(o, enemy_hqs),
        None => 99,
    }
}

proof fn lemma_min_dist_le_99(from: (i32, i32), hqs: Seq<(i32, i32)>)
    ensures
        min_dist_capped(from, hqs) <= 99,
        min_dist_capped(from, hqs) >= 0,
    decreases hqs.len(),
{
    if hqs.len() > 0 {
        lemma_min_dist_le_99(from, hqs.drop_last());
    }
}

/// The distance is a lower bound: no listed HQ is closer than the result.
pub proof fn lemma_min_dist_is_min(from: (i32, i32), hqs: Seq<(i32, i32)>, i: int)
    requires
        0 <= i < hqs.len(),
    ensures
        min_dist_capped(from, hqs) <= manhattan(from, hqs[i]),
    decreases hqs.len(),
{
    if i < hqs.len() - 1 {
        lemma_min_dist_is_min(from, hqs.drop_last(), i);
    }
}

// ---------------------------------------------------------------------------
// Territory summaries
// ---------------------------------------------------------------------------

/// Tile `t` has an 8-neighbour owned by a player other than `p`.
pub open spec fn touches_enemy(owners: Seq<Option<usize>>, neighbours: Seq<Vec<usize>>, p: usize, t: int) -> bool {
    exists|j: int|
        0 <= j < neighbours[t]@.len() && (#[trigger] neighbours[t]@[j]) < owners.len() && (
        owners[neighbours[t]@[j] as int] matches Some(o) && o != p)
}

/// Number of tiles among the first `i` owned by `p`.
pub open spec fn count_owned(owners: Seq<Option<usize>>, p: usize, i: int) -> int
    decreases i,
{
    if i <= 0 {
        0
    } else {
        count_owned(owners, p, i - 1) + if owns(owners, p, i - 1) {
            1int
        } else {
            0
        }
    }
}

/// Number of tiles among the first `i` owned by `p` that touch an enemy.
pub open spec fn count_frontier(owners: Seq<Option<usize>>, neighbours: Seq<Vec<usize>>, p: usize, i: int) -> int
    decreases i,
{
    if i <= 0 {
        0
    } else {
        count_frontier(owners, neighbours, p, i - 1) + if owns(owners, p, i - 1) && touches_enemy(
            owners,
            neighbours,
            p,
            i - 1,
        ) {
            1int
        } else {
            0
        }
    }
}

/// Frontier pressure as `(owned, frontier)`: the number of tiles `p` owns and
/// how many of them have an enemy-owned 8-neighbour (`neighbours8[i]`). The
/// frontier fraction is `frontier / owned` (0 when `owned` is 0).
pub fn frontier_counts(owners: &Vec<Option<usize>>, neighbours8: &Vec<Vec<usize>>, p: usize) -> (r: (
    usize,
    usize,
))
    requires
        neighbours8@.len() == owners@.len(),
    ensures
        r.0 as int == count_owned(owners@, p, owners@.len() as int),
        r.1 as int == count_frontier(owners@, neighbours8@, p, owners@.len() as int),
        r.1 <= r.0,
{
    let n = owners.len();
    let mut owned: usize = 0;
    let mut frontier: usize = 0;
    let mut i: usize = 0;
    while i < n
        invariant
            i <= n,
            n == owners@.len(),
            n == neighbours8@.len(),
            owned as int == count_owned(owners@, p, i as int),
            frontier as int == count_frontier(owners@, neighbours8@, p, i as int),
            frontier <= owned <= i,
        decreases n - i,
    {
        let mine = match owners[i] {
            Some(o) => o == p,
            None => false,
        };
        if mine {
            owned = owned + 1;
            let nb = &neighbours8[i];
            let mut touches = false;
            let mut j: usize = 0;
            while j < nb.len()
                invariant
                    j <= nb@.len(),
                    nb@ == neighbours8@[i as int]@,
                    n == owners@.len(),
                    touches <==> exists|k: int|
                        0 <= k < j && (#[trigger] nb@[k]) < owners@.len() && (owners@[nb@[k] as int] matches Some(
                            o,
                        ) && o != p),
                decreases nb@.len() - j,
            {
                let t = nb[j];
                if t < n {
                    match owners[t] {
                        Some(o) => {
                            if o != p {
                                touches = true;
                            }
                        },
                        None => {},
                    }
                }
                j = j + 1;
            }
            if touches {
                frontier = frontier + 1;
            }
        }
        i = i + 1;
    }
    (owned, frontier)
}


// ---------------------------------------------------------------------------
// Laws of the cut measure
// ---------------------------------------------------------------------------

/// The graph is undirected: every edge is listed from both ends.
pub open spec fn symmetric(adj: Seq<Seq<usize>>) -> bool {
    forall|u: int, j: int|
        0 <= u < adj.len() && 0 <= j < adj[u].len() ==> exists|k: int|
            0 <= k < adj[#[trigger] adj[u][j] as int].len() && adj[adj[u][j] as int][k] as int == u
}

/// `t` has at most one distinct neighbour.
pub open spec fn is_leaf(adj: Seq<Seq<usize>>, t: int) -> bool {
    forall|j: int, k: int| 0 <= j < adj[t].len() && 0 <= k < adj[t].len() ==> adj[t][j] == adj[t][k]
}

proof fn lemma_reach_mono(adj: Seq<Seq<usize>>, root: int, exclude: Option<usize>, a: nat, b: nat)
    requires
        a <= b,
    ensures
        reach_within(adj, root, exclude, a).subset_of(reach_within(adj, root, exclude, b)),
    decreases b - a,
{
    if a < b {
        lemma_reach_mono(adj, root, exclude, a, (b - 1) as nat);
    }
}

/// A node other than the root first enters the reach through an edge from an
/// earlier-reached node.
proof fn lemma_entry_edge(adj: Seq<Seq<usize>>, root: int, exclude: Option<usize>, v: int, k: nat) -> (r: (nat, int, int))
    requires
        reach_within(adj, root, exclude, k).contains(v),
        v != root,
    ensures
        r.0 < k,
        reach_within(adj, root, exclude, r.0).contains(r.1),
        0 <= r.2 < adj[r.1].len(),
        adj[r.1][r.2] as int == v,
    decreases k,
{
    if k == 0 {
        assert(false);
        (0, 0, 0)
    } else {
        let prev = reach_within(adj, root, exclude, (k - 1) as nat);
        if prev.contains(v) {
            lemma_entry_edge(adj, root, exclude, v, (k - 1) as nat)
        } else {
            let (u, j) = choose|u: int, j: int|
                #![trigger prev.contains(u), adj[u][j]]
                prev.contains(u) && 0 <= j < adj[u].len() && adj[u][j] as int == v;
            ((k - 1) as nat, u, j)
        }
    }
}

proof fn lemma_leaf_keeps(adj: Seq<Seq<usize>>, hq: int, t: usize, k: nat)
    requires
        graph_wf(adj),
        symmetric(adj),
        is_leaf(adj, t as int),
        hq != t,
    ensures
        forall|v: int|
            #[trigger] reach_within(adj, hq, None, k).contains(v) && v != t ==> component(adj, hq, Some(t)).contains(v),
    decreases k,
{
    lemma_reach_within_allowed(adj, hq, None, k);
    assert forall|v: int|
        #[trigger] reach_within(adj, hq, None, k).contains(v) && v != t implies component(adj, hq, Some(t)).contains(
        v,
    ) by {
        if k == 0 {
            assert(v == hq);
            assert(reach_within(adj, hq, Some(t), 0).contains(v));
        } else {
            let prev = reach_within(adj, hq, None, (k - 1) as nat);
            lemma_leaf_keeps(adj, hq, t, (k - 1) as nat);
            if !prev.contains(v) {
                let (u, j) = choose|u: int, j: int|
                    #![trigger prev.contains(u), adj[u][j]]
                    prev.contains(u) && 0 <= j < adj[u].len() && adj[u][j] as int == v;
                lemma_reach_within_allowed(adj, hq, None, (k - 1) as nat);
                if u != t {
                    // u stays connected, and so does its neighbour v
                    let m = choose|m: nat| #[trigger] reach_within(adj, hq, Some(t), m).contains(u);
                    assert(reach_within(adj, hq, Some(t), m + 1).contains(v));
                } else {
                    // v is the leaf's only neighbour, through which the leaf was reached
                    let (m, x, i) = lemma_entry_edge(adj, hq, None, t as int, (k - 1) as nat);
                    lemma_reach_within_allowed(adj, hq, None, m);
                    assert(0 <= x < adj.len() && 0 <= i < adj[x].len());
                    let kk = choose|kk: int| 0 <= kk < adj[adj[x][i] as int].len() && #[trigger] adj[adj[x][i] as int][kk] as int == x;
                    assert(adj[t as int][kk] as int == x);
                    assert(adj[t as int][j] == adj[t as int][kk]);
                    assert(x == v);
                    lemma_leaf_keeps(adj, hq, t, m);
                }
            }
        }
    }
}

/// Removing a leaf (a node with at most one distinct neighbour, in an
/// undirected graph) severs nothing: its cut measure is 0 unless it is the HQ.
pub proof fn lemma_leaf_cut_is_zero(adj: Seq<Seq<usize>>, hq: int, t: usize)
    requires
        graph_wf(adj),
        symmetric(adj),
        is_leaf(adj, t as int),
        hq != t,
    ensures
        spec_cut_fraction(adj, hq, t as int).0 == 0,
{
    let full = component(adj, hq, None);
    let part = component(adj, hq, Some(t));
    lemma_component_bounded(adj, hq, None);
    lemma_component_bounded(adj, hq, Some(t));
    lemma_component_exclude_subset(adj, hq, t);
    assert forall|v: int| full.remove(t as int).contains(v) implies part.contains(v) by {
        let k = choose|k: nat| #[trigger] reach_within(adj, hq, None, k).contains(v);
        lemma_leaf_keeps(adj, hq, t, k);
    }
    assert(part =~= full.remove(t as int));
    if full.contains(t as int) {
        assert(part.len() == full.len() - 1);
    } else {
        assert(full.remove(t as int) =~= full);
    }
}

/// A node outside the HQ component severs nothing.
pub proof fn lemma_unreached_cut_is_zero(adj: Seq<Seq<usize>>, hq: int, t: usize)
    requires
        !component(adj, hq, None).contains(t as int),
    ensures
        spec_cut_fraction(adj, hq, t as int).0 == 0,
{
    let full = component(adj, hq, None);
    let part = component(adj, hq, Some(t));
    assert forall|v: int| full.contains(v) implies part.contains(v) by {
        let k = choose|k: nat| #[trigger] reach_within(adj, hq, None, k).contains(v);
        lemma_unreached_keeps(adj, hq, t, k);
    }
    lemma_component_exclude_subset(adj, hq, t);
    assert(part =~= full);
    assert(part.len() == full.len());
    if t as int == hq {
        if allowed(adj.len() as int, None, hq) {
            assert(reach_within(adj, hq, None, 0).contains(hq));
            assert(full.contains(hq));
        } else {
            assert forall|v: int| !#[trigger] full.contains(v) by {
                if full.contains(v) {
                    let k = choose|k: nat| #[trigger] reach_within(adj, hq, None, k).contains(v);
                    lemma_reach_empty(adj, hq, None, k);
                }
            }
            assert(full =~= Set::<int>::empty());
        }
    }
}

proof fn lemma_unreached_keeps(adj: Seq<Seq<usize>>, hq: int, t: usize, k: nat)
    requires
        !component(adj, hq, None).contains(t as int),
    ensures
        reach_within(adj, hq, None, k).subset_of(reach_within(adj, hq, Some(t), k)),
    decreases k,
{
    assert(!reach_within(adj, hq, None, k).contains(t as int));
    if k > 0 {
        lemma_unreached_keeps(adj, hq, t, (k - 1) as nat);
        let pn = reach_within(adj, hq, None, (k - 1) as nat);
        let pe = reach_within(adj, hq, Some(t), (k - 1) as nat);
        assert forall|v: int| #[trigger]
            reach_within(adj, hq, None, k).contains(v) implies reach_within(adj, hq, Some(t), k).contains(v) by {
            if !pn.contains(v) {
                let (u, j) = choose|u: int, j: int|
                    #![trigger pn.contains(u), adj[u][j]]
                    pn.contains(u) && 0 <= j < adj[u].len() && adj[u][j] as int == v;
                assert(pe.contains(u));
            }
        }
    } else {
        assert(reach_within(adj, hq, None, 0).contains(hq) ==> hq != t as int);
    }
}

/// The first of the first `k` enemy Headquarters nearest `from`.
pub open spec fn nearest_hq_upto(from: (i32, i32), hqs: Seq<(i32, i32)>, k: int) -> Option<int>
    decreases k,
{
    if k <= 0 {
        None
    } else {
        match nearest_hq_upto(from, hqs, k - 1) {
            None => Some(k - 1),
            Some(b) => if manhattan(from, hqs[k - 1]) < manhattan(from, hqs[b]) {
                Some(k - 1)
            } else {
                Some(b)
            },
        }
    }
}

/// How many of the first `k` owned tiles lie within `radius` of `target`.
pub open spec fn count_near(owned: Seq<(i32, i32)>, target: (i32, i32), radius: i32, k: int) -> int
    decreases k,
{
    if k <= 0 {
        0
    } else {
        count_near(owned, target, radius, k - 1) + if manhattan(owned[k - 1], target) <= radius {
            1int
        } else {
            0
        }
    }
}

fn manhattan_i64(a: (i32, i32), b: (i32, i32)) -> (r: i64)
    ensures
        r == manhattan(a, b),
{
    let dx: i64 = a.0 as i64 - b.0 as i64;
    let dy: i64 = a.1 as i64 - b.1 as i64;
    (if dx < 0 {
        -dx
    } else {
        dx
    }) + (if dy < 0 {
        -dy
    } else {
        dy
    })
}

proof fn lemma_count_near_bounds(owned: Seq<(i32, i32)>, target: (i32, i32), radius: i32, k: int)
    ensures
        0 <= count_near(owned, target, radius, k),
        k >= 0 ==> count_near(owned, target, radius, k) <= k,
    decreases k,
{
    if k > 0 {
        lemma_count_near_bounds(owned, target, radius, k - 1);
    }
}

proof fn lemma_nearest_hq_in_range(from: (i32, i32), hqs: Seq<(i32, i32)>, k: int)
    ensures
        nearest_hq_upto(from, hqs, k) matches Some(b) ==> 0 <= b < k,
        k > 0 ==> nearest_hq_upto(from, hqs, k) is Some,
    decreases k,
{
    if k > 0 {
        lemma_nearest_hq_in_range(from, hqs, k - 1);
    }
}

/// How far the front has pushed toward the enemy: with an own Headquarters and
/// a live enemy one, the own tiles within `radius` of the enemy Headquarters
/// nearest the own one (the first among equals), and the own tile count
/// (the push is their ratio); `None` otherwise.
pub fn enemy_hq_push_counts(
    own_hq: Option<(i32, i32)>,
    enemy_hqs: &Vec<(i32, i32)>,
    owned: &Vec<(i32, i32)>,
    radius: i32,
) -> (r: Option<(usize, usize)>)
    ensures
        match own_hq {
            None => r is None,
            Some(o) => match nearest_hq_upto(o, enemy_hqs@, enemy_hqs@.len() as int) {
                None => r is None,
                Some(b) => r == Some(
                    (
                        count_near(owned@, enemy_hqs@[b], radius, owned@.len() as int) as usize,
                        owned@.len() as usize,
                    ),
                ),
            },
        },
{
    let o = match own_hq {
        Some(o) => o,
        None => return None,
    };
    let mut best: Option<usize> = None;
    let mut bd: i64 = 0;
    let mut i: usize = 0;
    while i < enemy_hqs.len()
        invariant
            i <= enemy_hqs@.len(),
            best == (match nearest_hq_upto(o, enemy_hqs@, i as int) {
                Some(b) => Some(b as usize),
                None => None::<usize>,
            }),
            best matches Some(b) ==> b < i && bd == manhattan(o, enemy_hqs@[b as int]),
        decreases enemy_hqs@.len() - i,
    {
        proof {
            lemma_nearest_hq_in_range(o, enemy_hqs@, i as int);
        }
        let d = manhattan_i64(o, enemy_hqs[i]);
        match best {
            None => {
                best = Some(i);
                bd = d;
            },
            Some(_) => {
                if d < bd {
                    best = Some(i);
                    bd = d;
                }
            },
        }
        i = i + 1;
    }
    proof {
        lemma_nearest_hq_in_range(o, enemy_hqs@, enemy_hqs@.len() as int);
    }
    let b = match best {
        Some(b) => b,
        None => return None,
    };
    let target = enemy_hqs[b];
    let mut near: usize = 0;
    let mut k: usize = 0;
    while k < owned.len()
        invariant
            k <= owned@.len(),
            near == count_near(owned@, target, radius, k as int),
        decreases owned@.len() - k,
    {
        proof {
            lemma_count_near_bounds(owned@, target, radius, k as int);
        }
        let d = manhattan_i64(owned[k], target);
        if d <= radius as i64 {
            near = near + 1;
        }
        k = k + 1;
    }
    Some((near, owned.len()))
}

} // verus!
