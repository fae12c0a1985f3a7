//! The directed acyclic wiring of the audio graph.
//!
//! Edges are pairs `(src, dest)`: the node `src` feeds into the node
//! `dest`. The wiring itself is kept in a `daggy` DAG, which refuses
//! edges that would close a cycle; this module states what that DAG
//! holds and proves what follows for paths along its edges.

use vstd::prelude::*;

verus! {

/// The error with which `daggy` hands back the weight of a refused edge.
#[verifier::external_type_specification]
#[verifier::external_body]
#[verifier::reject_recursive_types(E)]
pub struct ExWouldCycle<E>(dsp::daggy::WouldCycle<E>);

/// The wiring of an audio graph: a `daggy` DAG that carries no weights,
/// only node indices and the edges between them. The verifier does not
/// look inside; what it holds is named by `wiring_nodes` and
/// `wiring_edges`.
#[verifier::external_body]
pub struct Wiring {
    dag: dsp::daggy::Dag<(), (), usize>,
}

/// How many nodes the wiring holds. Their indices are `0..wiring_nodes`.
pub uninterp spec fn wiring_nodes(wiring: Wiring) -> nat;

/// The edges of the wiring as `(src, dest)`, in the order of their edge
/// indices, which is the order in which they were added.
pub uninterp spec fn wiring_edges(wiring: Wiring) -> Seq<(int, int)>;

/// `daggy::Dag::new`: a wiring without nodes or edges.
#[verifier::external_body]
pub(crate) fn wiring_new() -> (wiring: Wiring)
    ensures
        wiring_nodes(wiring) == 0,
        wiring_edges(wiring) == Seq::<(int, int)>::empty(),
{
    Wiring { dag: dsp::daggy::Dag::new() }
}

/// `daggy::Dag::add_node`: appends a node and returns its index, which
/// is the number of nodes there were. With `usize` indices the graph has
/// no maximum at which this would panic. The edges stay as they are.
#[verifier::external_body]
pub(crate) fn wiring_add_node(wiring: &mut Wiring) -> (index: usize)
    ensures
        index == wiring_nodes(*old(wiring)),
        wiring_nodes(*final(wiring)) == wiring_nodes(*old(wiring)) + 1,
        wiring_edges(*final(wiring)) == wiring_edges(*old(wiring)),
{
    wiring.dag.add_node(()).index()
}

/// `daggy::Dag::add_edge`: adds the edge `a -> b` unless that closes a
/// cycle. It panics when `a` or `b` is no node, hence the `requires`.
///
/// `daggy` looks for a cycle only if, before the edge is added, `a` has
/// an incoming edge, `b` has an outgoing edge and there is no edge
/// `a -> b` yet; it then adds the edge and asks `petgraph` whether the
/// graph has become cyclic. If so the edge is taken out again, which
/// leaves the other edges in place as it was the last one, and the
/// error is returned. Otherwise the edge stays, as the last one, and its
/// index is returned.
#[verifier::external_body]
pub(crate) fn wiring_add_edge(wiring: &mut Wiring, a: usize, b: usize) -> (added: Result<
    usize,
    dsp::daggy::WouldCycle<()>,
>)
    requires
        a < wiring_nodes(*old(wiring)),
        b < wiring_nodes(*old(wiring)),
    ensures
        wiring_nodes(*final(wiring)) == wiring_nodes(*old(wiring)),
        added is Err <==> {
            &&& has_input(wiring_edges(*old(wiring)), a as int)
            &&& has_output(wiring_edges(*old(wiring)), b as int)
            &&& !has_edge(wiring_edges(*old(wiring)), a as int, b as int)
            &&& has_cycle(wiring_edges(*old(wiring)).push((a as int, b as int)))
        },
        added is Err ==> wiring_edges(*final(wiring)) == wiring_edges(*old(wiring)),
        added matches Ok(index) ==> {
            &&& index == wiring_edges(*old(wiring)).len()
            &&& wiring_edges(*final(wiring)) == wiring_edges(*old(wiring)).push((a as int, b as int))
        },
{
    wiring.dag.add_edge(dsp::NodeIndex::new(a), dsp::NodeIndex::new(b), ()).map(|edge| edge.index())
}

/// `daggy::Dag::raw_edges`: the edges in the order of their indices,
/// each handed out as its source and target index.
#[verifier::external_body]
pub(crate) fn wiring_edge_list(wiring: &Wiring) -> (list: Vec<(usize, usize)>)
    ensures
        list@.len() == wiring_edges(*wiring).len(),
        forall|k: int|
            0 <= k < list@.len() ==> (#[trigger] list@[k]).0 as int == wiring_edges(*wiring)[k].0
                && list@[k].1 as int == wiring_edges(*wiring)[k].1,
{
    wiring.dag.raw_edges().iter().map(|edge| (edge.source().index(), edge.target().index())).collect()
}

/// There is an edge from `a` to `b`.
pub open spec fn has_edge(edges: Seq<(int, int)>, a: int, b: int) -> bool {
    exists|k: int| 0 <= k < edges.len() && #[trigger] edges[k] == (a, b)
}

/// Some edge arrives at `a`.
pub open spec fn has_input(edges: Seq<(int, int)>, a: int) -> bool {
    exists|k: int| 0 <= k < edges.len() && (#[trigger] edges[k]).1 == a
}

/// Some edge leaves `a`.
pub open spec fn has_output(edges: Seq<(int, int)>, a: int) -> bool {
    exists|k: int| 0 <= k < edges.len() && (#[trigger] edges[k]).0 == a
}

/// `path` is a walk along the edges, in the direction of signal flow.
/// A single node is a walk of no steps.
pub open spec fn is_path(edges: Seq<(int, int)>, path: Seq<int>) -> bool {
    &&& path.len() >= 1
    &&& forall|i: int| 0 <= i < path.len() - 1 ==> has_edge(edges, #[trigger] path[i], path[i + 1])
}

/// `a` is upstream of `b`: what `a` produces arrives at `b` along zero or
/// more edges. Seen from `b`, which pulls its input through those edges,
/// `a` is reachable. Every node is upstream of itself.
pub open spec fn upstream(edges: Seq<(int, int)>, a: int, b: int) -> bool {
    exists|path: Seq<int>| is_path(edges, path) && #[trigger] path[0] == a && path.last() == b
}

/// Some walk of at least one step returns to where it began.
pub open spec fn has_cycle(edges: Seq<(int, int)>) -> bool {
    exists|path: Seq<int>| is_path(edges, path) && path.len() >= 2 && #[trigger] path[0] == path.last()
}

/// `rank` grows strictly along every edge.
pub open spec fn ranked_by(edges: Seq<(int, int)>, rank: spec_fn(int) -> nat) -> bool {
    forall|k: int| 0 <= k < edges.len() ==> rank((#[trigger] edges[k]).0) < rank(edges[k].1)
}

/// The edges admit a topological ranking.
pub open spec fn acyclic(edges: Seq<(int, int)>) -> bool {
    exists|rank: spec_fn(int) -> nat| ranked_by(edges, rank)
}

/// The ranking that makes room for a new edge `a -> b`: everything
/// downstream of `b` is lifted above `a`.
pub open spec fn lifted_rank(edges: Seq<(int, int)>, rank: spec_fn(int) -> nat, a: int, b: int) -> spec_fn(int) -> nat {
    |x: int| if upstream(edges, b, x) { (rank(x) + rank(a) + 1) as nat } else { rank(x) }
}

/// Every node is upstream of itself.
pub proof fn lemma_upstream_refl(edges: Seq<(int, int)>, a: int)
    ensures
        upstream(edges, a, a),
{
    let path = seq![a];
    assert(is_path(edges, path));
    assert(path[0] == a && path.last() == a);
}

/// A walk can be continued along one more edge.
pub proof fn lemma_upstream_step(edges: Seq<(int, int)>, a: int, x: int, y: int)
    requires
        upstream(edges, a, x),
        has_edge(edges, x, y),
    ensures
        upstream(edges, a, y),
{
    let path = choose|path: Seq<int>| is_path(edges, path) && #[trigger] path[0] == a && path.last() == x;
    let longer = path.push(y);
    assert forall|i: int| 0 <= i < longer.len() - 1 implies has_edge(edges, #[trigger] longer[i], longer[i + 1]) by {
        if i < path.len() - 1 {
            assert(longer[i] == path[i]);
            assert(longer[i + 1] == path[i + 1]);
        } else {
            assert(longer[i] == x);
            assert(longer[i + 1] == y);
        }
    }
    assert(is_path(edges, longer));
    assert(longer[0] == a && longer.last() == y);
}

/// Along a walk the rank grows from each node to every later one.
pub proof fn lemma_path_rank(edges: Seq<(int, int)>, rank: spec_fn(int) -> nat, path: Seq<int>, j: int)
    requires
        ranked_by(edges, rank),
        is_path(edges, path),
        0 <= j < path.len(),
    ensures
        rank(path[0]) + j <= rank(path[j]),
    decreases j,
{
    if j > 0 {
        lemma_path_rank(edges, rank, path, j - 1);
        assert(has_edge(edges, path[j - 1], path[j - 1 + 1]));
        let k = choose|k: int| 0 <= k < edges.len() && #[trigger] edges[k] == (path[j - 1], path[j]);
        assert(rank(edges[k].0) < rank(edges[k].1));
    }
}

/// A ranked wiring has no cycle.
pub proof fn lemma_acyclic_has_no_cycle(edges: Seq<(int, int)>)
    requires
        acyclic(edges),
    ensures
        !has_cycle(edges),
{
    if has_cycle(edges) {
        let rank = choose|rank: spec_fn(int) -> nat| ranked_by(edges, rank);
        let path = choose|path: Seq<int>| is_path(edges, path) && path.len() >= 2 && #[trigger] path[0] == path.last();
        lemma_path_rank(edges, rank, path, path.len() - 1);
    }
}

/// In a ranked wiring a node that is upstream of another, different node
/// has the lower rank.
pub proof fn lemma_upstream_rank(edges: Seq<(int, int)>, rank: spec_fn(int) -> nat, a: int, b: int)
    requires
        ranked_by(edges, rank),
        upstream(edges, a, b),
    ensures
        rank(a) <= rank(b),
        a != b ==> rank(a) < rank(b),
{
    let path = choose|path: Seq<int>| is_path(edges, path) && #[trigger] path[0] == a && path.last() == b;
    lemma_path_rank(edges, rank, path, path.len() - 1);
}

/// If `b` is upstream of a different node `a`, then an edge leaves `b`
/// and an edge arrives at `a`.
pub proof fn lemma_upstream_ends(edges: Seq<(int, int)>, b: int, a: int)
    requires
        upstream(edges, b, a),
        a != b,
    ensures
        has_output(edges, b),
        has_input(edges, a),
{
    let path = choose|path: Seq<int>| is_path(edges, path) && #[trigger] path[0] == b && path.last() == a;
    assert(path.len() >= 2);
    assert(has_edge(edges, path[0], path[1]));
    let first = choose|k: int| 0 <= k < edges.len() && #[trigger] edges[k] == (path[0], path[1]);
    assert(edges[first].0 == b);
    let n = path.len() - 2;
    assert(has_edge(edges, path[n], path[n + 1]));
    let last = choose|k: int| 0 <= k < edges.len() && #[trigger] edges[k] == (path[n], path[n + 1]);
    assert(edges[last].1 == a);
}

/// Walks survive the addition of an edge.
pub proof fn lemma_path_after_push(edges: Seq<(int, int)>, edge: (int, int), path: Seq<int>)
    requires
        is_path(edges, path),
    ensures
        is_path(edges.push(edge), path),
{
    let more = edges.push(edge);
    assert forall|i: int| 0 <= i < path.len() - 1 implies has_edge(more, #[trigger] path[i], path[i + 1]) by {
        assert(has_edge(edges, path[i], path[i + 1]));
        let k = choose|k: int| 0 <= k < edges.len() && #[trigger] edges[k] == (path[i], path[i + 1]);
        assert(more[k] == (path[i], path[i + 1]));
    }
}

/// An edge from `a` to a node that is already upstream of `a` closes a
/// cycle.
pub proof fn lemma_back_edge_closes_cycle(edges: Seq<(int, int)>, a: int, b: int)
    requires
        upstream(edges, b, a),
    ensures
        has_cycle(edges.push((a, b))),
{
    let more = edges.push((a, b));
    let path = choose|path: Seq<int>| is_path(edges, path) && #[trigger] path[0] == b && path.last() == a;
    lemma_path_after_push(edges, (a, b), path);
    assert(more[edges.len() as int] == (a, b));
    assert(has_edge(more, a, b));
    let round = path.push(b);
    assert forall|i: int| 0 <= i < round.len() - 1 implies has_edge(more, #[trigger] round[i], round[i + 1]) by {
        if i < path.len() - 1 {
            assert(round[i] == path[i]);
            assert(round[i + 1] == path[i + 1]);
            assert(has_edge(more, path[i], path[i + 1]));
        } else {
            assert(round[i] == a);
            assert(round[i + 1] == b);
        }
    }
    assert(is_path(more, round));
    assert(round.len() >= 2 && round[0] == round.last());
}

/// An edge from `a` to `b` keeps the wiring ranked as long as `b` is not
/// upstream of `a`.
pub proof fn lemma_forward_edge_keeps_rank(edges: Seq<(int, int)>, rank: spec_fn(int) -> nat, a: int, b: int)
    requires
        ranked_by(edges, rank),
        !upstream(edges, b, a),
    ensures
        ranked_by(edges.push((a, b)), lifted_rank(edges, rank, a, b)),
{
    let more = edges.push((a, b));
    let lifted = lifted_rank(edges, rank, a, b);
    assert forall|k: int| 0 <= k < more.len() implies lifted((#[trigger] more[k]).0) < lifted(more[k].1) by {
        if k < edges.len() {
            let x = edges[k].0;
            let y = edges[k].1;
            assert(more[k] == edges[k]);
            assert(rank(x) < rank(y));
            if upstream(edges, b, x) {
                assert(edges[k] == (x, y));
                assert(has_edge(edges, x, y));
                lemma_upstream_step(edges, b, x, y);
            }
        } else {
            assert(more[k] == (a, b));
            lemma_upstream_refl(edges, b);
        }
    }
}

/// In an acyclic wiring, an edge from `a` to `b` closes a cycle exactly
/// when `b` is upstream of `a`.
pub proof fn lemma_cycle_iff_upstream(edges: Seq<(int, int)>, a: int, b: int)
    requires
        acyclic(edges),
    ensures
        has_cycle(edges.push((a, b))) <==> upstream(edges, b, a),
        !upstream(edges, b, a) ==> acyclic(edges.push((a, b))),
{
    if upstream(edges, b, a) {
        lemma_back_edge_closes_cycle(edges, a, b);
    } else {
        let rank = choose|rank: spec_fn(int) -> nat| ranked_by(edges, rank);
        lemma_forward_edge_keeps_rank(edges, rank, a, b);
        assert(acyclic(edges.push((a, b))));
        lemma_acyclic_has_no_cycle(edges.push((a, b)));
    }
}

} // verus!
