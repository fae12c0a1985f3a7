//! The audio graph: nodes addressed by stable indices, the edges that
//! feed one node into another, and the master node whose output is the
//! engine's output.

use vstd::prelude::*;

use crate::error::Error;
use crate::topology::{
    acyclic, has_cycle, has_edge, is_path, lemma_acyclic_has_no_cycle,
    lemma_back_edge_closes_cycle, lemma_cycle_iff_upstream, lemma_upstream_ends,
    lemma_upstream_rank, lemma_upstream_refl, ranked_by, upstream, wiring_add_edge,
    wiring_add_node, wiring_edge_list, wiring_edges, wiring_new, wiring_nodes, Wiring,
};
use crate::audioformat::OpsExt;
use crate::processing::{silence, silent, Node};
use crate::render::{
    edge_pairs, inputs_cached, inputs_of, is_cached, lemma_cached_upstream, mixed, outs_of,
    render_node, slot_ok, slot_rendered,
};
use crate::util::empty::Empty;

verus! {

/// Identifies a node. Indices stay put while other nodes come and go,
/// but the index of a removed node is handed out again.
pub type NodeIndex = usize;

/// Identifies an edge: the number of edges that were added before it.
pub type EdgeIndex = usize;

/// A directed edge: `src` feeds into `dest`.
#[derive(Clone, Copy, Debug, PartialEq, Eq, Structural)]
pub struct Edge {
    pub src: NodeIndex,
    pub dest: NodeIndex,
}

/// What an audio graph holds, as plain mathematics.
pub struct GraphView<N> {
    /// The node in each slot. A free slot holds the empty node.
    pub nodes: Seq<N>,
    /// Which slots have been given up and wait to be reused.
    pub free: Seq<bool>,
    /// The edges as `(src, dest)`, in the order they were added.
    pub edges: Seq<(int, int)>,
    /// The node that rendering starts from, if one is chosen.
    pub master: Option<int>,
}

impl<N> GraphView<N> {
    /// `index` names a node that is in the graph now.
    pub open spec fn live(self, index: int) -> bool {
        0 <= index < self.nodes.len() && !self.free[index]
    }

    /// The node at `index`, unless the slot is free or out of range.
    pub open spec fn lookup(self, index: int) -> Option<N> {
        if self.live(index) {
            Some(self.nodes[index])
        } else {
            None
        }
    }

    /// Some slot waits to be reused.
    pub open spec fn has_free(self) -> bool {
        exists|i: int| 0 <= i < self.free.len() && #[trigger] self.free[i]
    }

    /// `index` is the lowest free slot.
    pub open spec fn is_first_free(self, index: int) -> bool {
        &&& 0 <= index < self.free.len()
        &&& self.free[index]
        &&& forall|j: int| 0 <= j < index ==> !#[trigger] self.free[j]
    }

    /// Where the next node goes: the lowest free slot, or a new slot at
    /// the end when none is free.
    pub open spec fn insertion_index(self) -> int {
        if self.has_free() {
            choose|i: int| self.is_first_free(i)
        } else {
            self.nodes.len() as int
        }
    }

    /// The graph after `node` was put at the insertion index.
    pub open spec fn insert(self, node: N) -> Self {
        let index = self.insertion_index();
        if index < self.nodes.len() {
            GraphView { nodes: self.nodes.update(index, node), free: self.free.update(index, false), ..self }
        } else {
            GraphView { nodes: self.nodes.push(node), free: self.free.push(false), ..self }
        }
    }

    /// The graph with the node at `index` replaced.
    pub open spec fn with_node(self, index: int, node: N) -> Self {
        GraphView { nodes: self.nodes.update(index, node), ..self }
    }

    /// An edge from `src` to `dest` may be added: both are in the graph,
    /// and `dest` is not upstream of `src` already. (If it were, `src`
    /// would end up pulling from itself.)
    pub open spec fn can_connect(self, src: int, dest: int) -> bool {
        &&& self.live(src)
        &&& self.live(dest)
        &&& !upstream(self.edges, dest, src)
    }

    /// The graph after the edge from `src` to `dest` was added.
    pub open spec fn connect(self, src: int, dest: int) -> Self {
        GraphView { edges: self.edges.push((src, dest)), ..self }
    }

    /// What the slot at `index` puts out arrives at the master node.
    pub open spec fn feeds_master(self, index: int) -> bool {
        self.master matches Some(master) && upstream(self.edges, index, master)
    }

    /// The graph with the given master, which is dropped if it names no
    /// slot.
    pub open spec fn with_master(self, master: Option<int>) -> Self {
        GraphView {
            master: match master {
                Some(index) if 0 <= index < self.nodes.len() => Some(index),
                _ => None,
            },
            ..self
        }
    }
}

impl<N: Empty> GraphView<N> {
    /// The graph after the node at `index` was removed: its slot holds
    /// the empty node and is free. Edges and master are left alone.
    pub open spec fn remove(self, index: int) -> Self {
        GraphView { nodes: self.nodes.update(index, N::empty_spec()), free: self.free.update(index, true), ..self }
    }

    /// What holds of every audio graph.
    pub open spec fn wf(self) -> bool {
        &&& self.free.len() == self.nodes.len()
        &&& forall|i: int| 0 <= i < self.nodes.len() && #[trigger] self.free[i] ==> self.nodes[i] == N::empty_spec()
        &&& forall|k: int| 0 <= k < self.edges.len() ==> {
            &&& 0 <= (#[trigger] self.edges[k]).0 < self.nodes.len()
            &&& 0 <= self.edges[k].1 < self.nodes.len()
        }
        &&& acyclic(self.edges)
        &&& self.master matches Some(index) ==> 0 <= index < self.nodes.len()
    }
}

/// What one render pass does at slot `i`, given the buffer `outs(i)`
/// that each slot puts out. A slot that feeds the master is handed the
/// mix of what its inputs put out and is rendered once; any other slot
/// is left alone.
pub open spec fn pass_at<F: OpsExt, N: Node<F>>(
    before: GraphView<N>,
    after: GraphView<N>,
    outs: spec_fn(int) -> Seq<F>,
    len: nat,
    i: int,
) -> bool {
    if before.feeds_master(i) {
        &&& outs(i).len() == len
        &&& slot_rendered(
            before.nodes[i],
            before.free[i],
            mixed(outs, inputs_of(before.edges, i), len),
            after.nodes[i],
            outs(i),
        )
    } else {
        after.nodes[i] == before.nodes[i]
    }
}

/// One render pass of `len` frames takes the graph from `before` to
/// `after`, with `outs(i)` the buffer that slot `i` puts out.
pub open spec fn rendered<F: OpsExt, N: Node<F>>(
    before: GraphView<N>,
    after: GraphView<N>,
    outs: spec_fn(int) -> Seq<F>,
    len: nat,
) -> bool {
    &&& after.nodes.len() == before.nodes.len()
    &&& after.free == before.free
    &&& after.edges == before.edges
    &&& after.master == before.master
    &&& forall|i: int| 0 <= i < before.nodes.len() ==> #[trigger] pass_at(before, after, outs, len, i)
}

/// The lowest free slot is unique, so it is the insertion index.
pub proof fn lemma_first_free_is_insertion_index<N>(view: GraphView<N>, index: int)
    requires
        view.is_first_free(index),
    ensures
        view.has_free(),
        view.insertion_index() == index,
{
    assert(view.free[index]);
    let chosen = choose|i: int| view.is_first_free(i);
    assert(view.is_first_free(chosen));
    if chosen < index {
        assert(!view.free[chosen]);
    }
    if index < chosen {
        assert(!view.free[index]);
    }
}

/// The insertion index is a free slot, or the new slot at the end.
pub proof fn lemma_insertion_index<N>(view: GraphView<N>)
    requires
        view.free.len() == view.nodes.len(),
    ensures
        0 <= view.insertion_index() <= view.nodes.len(),
        view.has_free() ==> view.is_first_free(view.insertion_index()),
        !view.has_free() ==> view.insertion_index() == view.nodes.len(),
        !view.live(view.insertion_index()),
{
    if view.has_free() {
        let some = choose|i: int| 0 <= i < view.free.len() && #[trigger] view.free[i];
        lemma_lowest_free(view, some);
    }
}

/// Below any free slot there is a lowest one.
proof fn lemma_lowest_free<N>(view: GraphView<N>, index: int)
    requires
        0 <= index < view.free.len(),
        view.free[index],
    ensures
        exists|i: int| view.is_first_free(i),
    decreases index,
{
    if exists|j: int| 0 <= j < index && #[trigger] view.free[j] {
        let j = choose|j: int| 0 <= j < index && #[trigger] view.free[j];
        lemma_lowest_free(view, j);
    } else {
        assert(view.is_first_free(index));
    }
}

/// A graph of audio nodes whose indices remain stable across removals.
///
/// A removed node leaves its slot behind, and the next node that is
/// added moves in: different nodes may get the same index over time, so
/// an index should not outlive its node. Edges are never removed, not
/// even those of a removed node; whatever moves into the slot inherits
/// them.
pub struct AudioGraph<N> {
    slots: Vec<N>,
    free: Vec<bool>,
    has_free: bool,
    wiring: Wiring,
    master: Option<NodeIndex>,
}

impl<N> View for AudioGraph<N> {
    type V = GraphView<N>;

    closed spec fn view(&self) -> GraphView<N> {
        GraphView {
            nodes: self.slots@,
            free: self.free@,
            edges: wiring_edges(self.wiring),
            master: match self.master {
                Some(index) => Some(index as int),
                None => None,
            },
        }
    }
}

impl<N: Empty> AudioGraph<N> {
    /// The graph is well formed: its view is, and the bookkeeping beside
    /// it agrees with the view.
    pub closed spec fn wf(&self) -> bool {
        &&& self@.wf()
        &&& wiring_nodes(self.wiring) == self.slots@.len()
        &&& self.has_free == self@.has_free()
    }

    /// A well-formed graph has a well-formed view; in particular no walk
    /// along its edges returns to where it began.
    pub proof fn lemma_wf(&self)
        requires
            self.wf(),
        ensures
            self@.wf(),
            !has_cycle(self@.edges),
    {
        lemma_acyclic_has_no_cycle(self@.edges);
    }

    /// An empty graph: no nodes, no edges, no master.
    pub fn new() -> (graph: AudioGraph<N>)
        ensures
            graph.wf(),
            graph@.nodes.len() == 0,
            graph@.free.len() == 0,
            graph@.edges.len() == 0,
            graph@.master is None,
    {
        let graph = AudioGraph {
            slots: Vec::new(),
            free: Vec::new(),
            has_free: false,
            wiring: wiring_new(),
            master: None,
        };
        proof {
            let rank = |x: int| 0nat;
            assert(ranked_by(graph@.edges, rank));
        }
        graph
    }

    /// A graph of one empty node, which is its master.
    pub fn with_empty_master() -> (graph: AudioGraph<N>)
        ensures
            graph.wf(),
            graph@.nodes == seq![N::empty_spec()],
            graph@.free == seq![false],
            graph@.edges.len() == 0,
            graph@.master == Some(0int),
    {
        let mut graph = AudioGraph::new();
        let ghost blank = graph@;
        proof {
            lemma_insertion_index(blank);
        }
        let master = graph.add_node(N::empty());
        graph.set_master(Some(master));
        proof {
            assert(graph@.nodes =~= seq![N::empty_spec()]);
            assert(graph@.free =~= seq![false]);
        }
        graph
    }

    /// Adds the node and returns its index. The lowest free slot is
    /// reused if there is one; otherwise the graph grows by a slot.
    pub fn add_node(&mut self, node: N) -> (index: NodeIndex)
        requires
            old(self).wf(),
        ensures
            final(self).wf(),
            index == old(self)@.insertion_index(),
            final(self)@ == old(self)@.insert(node),
            final(self)@.lookup(index as int) == Some(node),
    {
        proof {
            lemma_insertion_index(self@);
        }
        match self.take_free() {
            Some(index) => {
                self.slots[index] = node;
                index
            },
            None => {
                let index = wiring_add_node(&mut self.wiring);
                self.slots.push(node);
                self.free.push(false);
                proof {
                    let before = old(self)@;
                    assert(final(self)@.nodes == before.nodes.push(node));
                    assert(final(self)@.free == before.free.push(false));
                    assert forall|i: int| 0 <= i < final(self)@.free.len() implies !#[trigger] final(self)@.free[i] by {
                        if i < before.free.len() {
                            assert(!before.free[i]);
                        }
                    }
                }
                index
            },
        }
    }

    /// Takes the lowest free slot, if there is one, and notes whether
    /// another is left.
    fn take_free(&mut self) -> (taken: Option<NodeIndex>)
        requires
            old(self).wf(),
        ensures
            final(self).wf(),
            taken is Some <==> old(self)@.has_free(),
            taken matches Some(index) ==> {
                &&& index == old(self)@.insertion_index()
                &&& index < old(self)@.nodes.len()
                &&& final(self)@ == (GraphView { free: old(self)@.free.update(index as int, false), ..old(self)@ })
            },
            taken is None ==> final(self)@ == old(self)@,
    {
        if !self.has_free {
            return None;
        }
        let count: usize = self.free.len();
        let mut more: bool = false;
        let mut taken: Option<NodeIndex> = None;
        let mut i: usize = 0;
        while i < count
            invariant
                i <= count,
                count == old(self)@.free.len(),
                self.slots == old(self).slots,
                self.wiring == old(self).wiring,
                self.master == old(self).master,
                self.free@.len() == count,
                taken is None ==> self.free@ == old(self)@.free && !more,
                taken is None ==> forall|j: int| 0 <= j < i ==> !#[trigger] old(self)@.free[j],
                taken matches Some(index) ==> {
                    &&& index < i
                    &&& old(self)@.is_first_free(index as int)
                    &&& self.free@ == old(self)@.free.update(index as int, false)
                    &&& more <==> exists|j: int| index < j < i && #[trigger] old(self)@.free[j]
                },
            decreases count - i,
        {
            if self.free[i] {
                match taken {
                    Some(index) => {
                        more = true;
                        assert(old(self)@.free[i as int]);
                    },
                    None => {
                        self.free[i] = false;
                        taken = Some(i);
                        assert(old(self)@.is_first_free(i as int));
                    },
                }
            }
            i += 1;
        }
        self.has_free = more;
        proof {
            let before = old(self)@;
            match taken {
                Some(index) => {
                    lemma_first_free_is_insertion_index(before, index as int);
                    let after = final(self)@;
                    assert(after.free == before.free.update(index as int, false));
                    if more {
                        let j = choose|j: int| index < j < count && #[trigger] before.free[j];
                        assert(after.free[j]);
                    } else {
                        assert forall|j: int| 0 <= j < after.free.len() implies !#[trigger] after.free[j] by {
                            if j < index {
                                assert(!before.free[j]);
                            } else if j > index {
                                assert(!before.free[j]);
                            }
                        }
                    }
                    assert(after.has_free() == more);
                },
                None => {
                    assert(!before.has_free());
                },
            }
        }
        taken
    }

    /// Removes the node at `index`: its slot is overwritten with the
    /// empty node and becomes free for reuse. Edges that touch it stay.
    /// Fails with `NodeNotFound`, leaving the graph as it is, when no node
    /// is there.
    pub fn remove_node(&mut self, index: NodeIndex) -> (removed: Result<(), Error>)
        requires
            old(self).wf(),
        ensures
            final(self).wf(),
            removed is Ok <==> old(self)@.live(index as int),
            removed is Ok ==> final(self)@ == old(self)@.remove(index as int),
            removed is Ok ==> final(self)@.lookup(index as int) is None,
            removed is Err ==> removed == Err::<(), Error>(Error::NodeNotFound) && final(self)@ == old(self)@,
    {
        if self.node_exists(index) {
            self.slots[index] = N::empty();
            self.free[index] = true;
            self.has_free = true;
            proof {
                assert(final(self)@.free[index as int]);
            }
            Ok(())
        } else {
            Err(Error::NodeNotFound)
        }
    }

    /// Whether a node is at `index` now.
    pub fn node_exists(&self, index: NodeIndex) -> (exists: bool)
        requires
            self.wf(),
        ensures
            exists == self@.live(index as int),
    {
        index < self.free.len() && !self.free[index]
    }

    /// The number of slots, free ones included.
    pub fn node_count(&self) -> (count: usize)
        requires
            self.wf(),
        ensures
            count == self@.nodes.len(),
    {
        self.slots.len()
    }

    /// The node at `index`, or nothing if the slot is free or out of
    /// range.
    pub fn node(&self, index: NodeIndex) -> (node: Option<&N>)
        requires
            self.wf(),
        ensures
            node is Some <==> self@.live(index as int),
            node matches Some(found) ==> *found == self@.nodes[index as int],
    {
        if self.node_exists(index) {
            Some(&self.slots[index])
        } else {
            None
        }
    }

    /// Every slot in the order of the indices: the node in it, or
    /// nothing for a free slot.
    pub fn node_iter(&self) -> (nodes: Vec<Option<&N>>)
        requires
            self.wf(),
        ensures
            nodes@.len() == self@.nodes.len(),
            forall|i: int| 0 <= i < nodes@.len() ==> match #[trigger] nodes@[i] {
                Some(node) => self@.lookup(i) == Some(*node),
                None => self@.lookup(i) is None,
            },
    {
        let mut nodes: Vec<Option<&N>> = Vec::new();
        let mut i: usize = 0;
        while i < self.slots.len()
            invariant
                self.wf(),
                i <= self.slots@.len(),
                nodes@.len() == i,
                forall|j: int| 0 <= j < i ==> match #[trigger] nodes@[j] {
                    Some(node) => self@.lookup(j) == Some(*node),
                    None => self@.lookup(j) is None,
                },
            decreases self.slots@.len() - i,
        {
            nodes.push(self.node(i));
            i += 1;
        }
        nodes
    }

    /// The node at `index`, to be changed in place, or nothing if the
    /// slot is free or out of range. Whatever is written through the
    /// reference becomes the node at `index`; nothing else changes.
    pub fn node_mut(&mut self, index: NodeIndex) -> (node: Option<&mut N>)
        requires
            old(self).wf(),
        ensures
            node is Some <==> old(self)@.live(index as int),
            node matches Some(found) ==> {
                &&& *found == old(self)@.nodes[index as int]
                &&& final(self)@ == old(self)@.with_node(index as int, *final(found))
                &&& final(self).wf()
            },
            node is None ==> final(self)@ == old(self)@ && final(self).wf(),
    {
        proof {
            let view = self@;
            if view.live(index as int) {
                assert forall|node: N| #[trigger]
                    view.with_node(index as int, node).wf() && view.with_node(index as int, node).has_free()
                        == view.has_free() by {
                    let changed = view.with_node(index as int, node);
                    assert(changed.free == view.free);
                    assert forall|i: int| 0 <= i < changed.nodes.len() && #[trigger] changed.free[i] implies changed.nodes[i]
                        == N::empty_spec() by {
                        assert(view.free[i]);
                    }
                }
            }
        }
        if self.node_exists(index) {
            Some(&mut self.slots[index])
        } else {
            None
        }
    }

    /// Puts `node` in place of the node at `index`. Fails with
    /// `NodeNotFound`, leaving the graph as it is, when no node is there.
    pub fn replace_node(&mut self, index: NodeIndex, node: N) -> (replaced: Result<(), Error>)
        requires
            old(self).wf(),
        ensures
            final(self).wf(),
            replaced is Ok <==> old(self)@.live(index as int),
            replaced is Ok ==> final(self)@ == old(self)@.with_node(index as int, node),
            replaced is Err ==> replaced == Err::<(), Error>(Error::NodeNotFound) && final(self)@ == old(self)@,
    {
        if self.node_exists(index) {
            self.slots[index] = node;
            proof {
                assert(final(self)@.free == old(self)@.free);
            }
            Ok(())
        } else {
            Err(Error::NodeNotFound)
        }
    }

    /// Adds an edge from `src` to `dest` and returns its index.
    ///
    /// The edge is refused, and the graph left as it is, with
    /// `NodeNotFound` when `src` or `dest` is not in the graph, and with
    /// `CycleWouldBeCreated` when `dest` is already upstream of `src`, as
    /// it is when the two are the same node. A second edge between the
    /// same two nodes is accepted.
    pub fn add_edge(&mut self, src: NodeIndex, dest: NodeIndex) -> (added: Result<EdgeIndex, Error>)
        requires
            old(self).wf(),
        ensures
            final(self).wf(),
            added is Ok <==> old(self)@.can_connect(src as int, dest as int),
            added matches Ok(index) ==> {
                &&& index == old(self)@.edges.len()
                &&& final(self)@ == old(self)@.connect(src as int, dest as int)
            },
            added matches Err(error) ==> {
                &&& final(self)@ == old(self)@
                &&& error == if old(self)@.live(src as int) && old(self)@.live(dest as int) {
                    Error::CycleWouldBeCreated
                } else {
                    Error::NodeNotFound
                }
            },
    {
        if !self.node_exists(src) || !self.node_exists(dest) {
            return Err(Error::NodeNotFound);
        }
        let ghost edges = self@.edges;
        if src == dest {
            proof {
                lemma_upstream_refl(edges, src as int);
            }
            return Err(Error::CycleWouldBeCreated);
        }
        proof {
            lemma_cycle_iff_upstream(edges, src as int, dest as int);
            if upstream(edges, dest as int, src as int) {
                lemma_upstream_ends(edges, dest as int, src as int);
                lemma_back_edge_closes_cycle(edges, src as int, dest as int);
                if has_edge(edges, src as int, dest as int) {
                    let rank = choose|rank: spec_fn(int) -> nat| ranked_by(edges, rank);
                    lemma_upstream_rank(edges, rank, dest as int, src as int);
                    let k = choose|k: int| 0 <= k < edges.len() && #[trigger] edges[k] == (src as int, dest as int);
                    assert(rank(edges[k].0) < rank(edges[k].1));
                }
            }
        }
        match wiring_add_edge(&mut self.wiring, src, dest) {
            Ok(index) => {
                proof {
                    let after = final(self)@;
                    assert(after.edges == edges.push((src as int, dest as int)));
                    assert forall|k: int| 0 <= k < after.edges.len() implies {
                        &&& 0 <= (#[trigger] after.edges[k]).0 < after.nodes.len()
                        &&& 0 <= after.edges[k].1 < after.nodes.len()
                    } by {
                        if k < edges.len() {
                            assert(after.edges[k] == edges[k]);
                        }
                    }
                }
                Ok(index)
            },
            Err(_) => Err(Error::CycleWouldBeCreated),
        }
    }

    /// Adds `node` and an edge from it to `dest` in one step, and returns
    /// the indices of the edge and of the node.
    ///
    /// Nothing is added, and the graph left as it is, with `NodeNotFound`
    /// when `dest` is not in the graph, and with `CycleWouldBeCreated`
    /// when the node would move into a slot that `dest` is upstream of.
    /// That takes a reused slot with edges left over from a removed node:
    /// while no slot is free, a node in the graph can always be given an
    /// input.
    pub fn add_input(&mut self, node: N, dest: NodeIndex) -> (added: Result<(EdgeIndex, NodeIndex), Error>)
        requires
            old(self).wf(),
        ensures
            final(self).wf(),
            added is Ok <==> old(self)@.live(dest as int) && !upstream(
                old(self)@.edges,
                dest as int,
                old(self)@.insertion_index(),
            ),
            !old(self)@.has_free() && old(self)@.live(dest as int) ==> added is Ok,
            added matches Ok(indices) ==> {
                &&& indices.0 == old(self)@.edges.len()
                &&& indices.1 == old(self)@.insertion_index()
                &&& final(self)@ == old(self)@.insert(node).connect(indices.1 as int, dest as int)
            },
            added matches Err(error) ==> {
                &&& final(self)@ == old(self)@
                &&& error == if old(self)@.live(dest as int) {
                    Error::CycleWouldBeCreated
                } else {
                    Error::NodeNotFound
                }
            },
    {
        if !self.node_exists(dest) {
            return Err(Error::NodeNotFound);
        }
        let ghost before = self@;
        proof {
            lemma_insertion_index(before);
            if upstream(before.edges, dest as int, before.insertion_index()) {
                lemma_upstream_ends(before.edges, dest as int, before.insertion_index());
                let k = choose|k: int|
                    0 <= k < before.edges.len() && (#[trigger] before.edges[k]).1 == before.insertion_index();
                assert(before.insertion_index() < before.nodes.len());
            }
        }
        let index = self.add_node(node);
        match self.add_edge(index, dest) {
            Ok(edge) => Ok((edge, index)),
            Err(error) => {
                let removed = self.remove_node(index);
                proof {
                    assert(before.is_first_free(index as int));
                    assert(final(self)@.nodes =~= before.nodes);
                    assert(final(self)@.free =~= before.free);
                }
                Err(error)
            },
        }
    }

    /// The edges in the order they were added.
    pub fn edge_iter(&self) -> (edges: Vec<Edge>)
        requires
            self.wf(),
        ensures
            edges@.len() == self@.edges.len(),
            forall|k: int|
                0 <= k < edges@.len() ==> (#[trigger] edges@[k]).src == self@.edges[k].0 && edges@[k].dest
                    == self@.edges[k].1,
    {
        let list = wiring_edge_list(&self.wiring);
        let mut edges: Vec<Edge> = Vec::new();
        let mut k: usize = 0;
        while k < list.len()
            invariant
                k <= list@.len(),
                list@.len() == self@.edges.len(),
                forall|j: int|
                    0 <= j < list@.len() ==> (#[trigger] list@[j]).0 as int == self@.edges[j].0 && list@[j].1 as int
                        == self@.edges[j].1,
                edges@.len() == k,
                forall|j: int|
                    0 <= j < k ==> (#[trigger] edges@[j]).src == self@.edges[j].0 && edges@[j].dest == self@.edges[j].1,
            decreases list@.len() - k,
        {
            let pair = list[k];
            edges.push(Edge { src: pair.0, dest: pair.1 });
            k += 1;
        }
        edges
    }

    /// Renders one buffer of audio from the master node.
    ///
    /// Each slot that feeds the master is rendered exactly once, after
    /// the slots that feed into it: it is handed the sum of what those
    /// put out, or silence if there are none, and what it makes of that
    /// is handed to every slot it feeds. A free slot passes on what it is
    /// handed. Slots that do not feed the master are left alone. The
    /// output is what the master puts out, or silence if there is no
    /// master.
    pub fn audio_requested<F: OpsExt>(&mut self, output: &mut [F], sample_hz: u32) where N: Node<F>
        requires
            old(self).wf(),
        ensures
            final(self).wf(),
            final(output)@.len() == old(output)@.len(),
            (exists|outs: spec_fn(int) -> Seq<F>|
                {
                    &&& #[trigger] rendered(old(self)@, final(self)@, outs, old(output)@.len())
                    &&& final(output)@ == match old(self)@.master {
                        Some(master) => outs(master),
                        None => silent(old(output)@.len()),
                    }
                }),
    {
        let len: usize = output.len();
        let ghost before = self@;
        match self.master {
            None => {
                silence(output);
                proof {
                    let outs = |i: int| Seq::<F>::empty();
                    assert forall|i: int| 0 <= i < before.nodes.len() implies #[trigger] pass_at(
                        before,
                        final(self)@,
                        outs,
                        len as nat,
                        i,
                    ) by {}
                    assert(rendered(before, final(self)@, outs, len as nat));
                }
            },
            Some(master) => {
                let edges = wiring_edge_list(&self.wiring);
                let count: usize = self.slots.len();
                let mut cache: Vec<Option<Vec<F>>> = Vec::new();
                let mut i: usize = 0;
                while i < count
                    invariant
                        i <= count,
                        cache@.len() == i,
                        forall|j: int| 0 <= j < i ==> cache@[j] is None,
                    decreases count - i,
                {
                    cache.push(None);
                    i += 1;
                }
                let ghost pairs = edge_pairs(edges@);
                let ghost rank = choose|rank: spec_fn(int) -> nat| ranked_by(before.edges, rank);
                let ghost blank = cache@;
                proof {
                    assert(pairs =~= before.edges);
                    assert forall|k: int| 0 <= k < edges@.len() implies (#[trigger] edges@[k]).0 < count && edges@[k].1
                        < count by {
                        assert(before.edges[k].0 == edges@[k].0);
                    }
                    assert forall|i: int| 0 <= i < before.nodes.len() implies #[trigger] slot_ok(
                        before.nodes,
                        before.free,
                        before.nodes,
                        pairs,
                        blank,
                        len as nat,
                        i,
                    ) by {}
                }
                render_node(
                    &mut self.slots,
                    &self.free,
                    &edges,
                    &mut cache,
                    master,
                    len,
                    sample_hz,
                    Ghost(before.nodes),
                    Ghost(rank),
                );
                match &cache[master] {
                    Some(frames) => {
                        assert(slot_ok(
                            before.nodes,
                            before.free,
                            self.slots@,
                            pairs,
                            cache@,
                            len as nat,
                            master as int,
                        ));
                        let mut j: usize = 0;
                        while j < len
                            invariant
                                j <= len,
                                output@.len() == len,
                                frames@.len() == len,
                                forall|i: int| 0 <= i < j ==> output@[i] == frames@[i],
                            decreases len - j,
                        {
                            output[j] = frames[j];
                            j += 1;
                        }
                        assert(output@ =~= frames@);
                    },
                    None => {},
                }
                proof {
                    let done = cache@;
                    let after = final(self)@;
                    let outs = outs_of(done);
                    assert forall|x: int| is_cached(done, x) implies inputs_cached(done, pairs, x) by {
                        assert(slot_ok(before.nodes, before.free, after.nodes, pairs, done, len as nat, x));
                    }
                    assert forall|i: int| 0 <= i < before.nodes.len() implies #[trigger] pass_at(
                        before,
                        after,
                        outs,
                        len as nat,
                        i,
                    ) by {
                        assert(slot_ok(before.nodes, before.free, after.nodes, pairs, done, len as nat, i));
                        if before.feeds_master(i) {
                            let path = choose|path: Seq<int>|
                                is_path(pairs, path) && #[trigger] path[0] == i && path.last() == master as int;
                            lemma_cached_upstream(done, pairs, path, 0);
                        } else {
                            if is_cached(done, i) {
                                assert(!is_cached(blank, i));
                            }
                        }
                    }
                    assert(after.free == before.free);
                    assert(after.edges == before.edges);
                    assert(rendered(before, after, outs, len as nat));
                    assert forall|i: int| 0 <= i < after.nodes.len() && #[trigger] after.free[i] implies after.nodes[i]
                        == N::empty_spec() by {
                        assert(slot_ok(before.nodes, before.free, after.nodes, pairs, done, len as nat, i));
                    }
                }
            },
        }
    }

    /// Chooses the node that rendering starts from, or none. An index
    /// outside the graph chooses none.
    pub fn set_master(&mut self, master: Option<NodeIndex>)
        requires
            old(self).wf(),
        ensures
            final(self).wf(),
            final(self)@ == old(self)@.with_master(
                match master {
                    Some(index) => Some(index as int),
                    None => None,
                },
            ),
    {
        self.master = match master {
            Some(index) => if index < self.slots.len() {
                Some(index)
            } else {
                None
            },
            None => None,
        };
        proof {
            assert(final(self)@.free == old(self)@.free);
            assert(final(self)@.nodes == old(self)@.nodes);
            assert(final(self)@.edges == old(self)@.edges);
        }
    }

    /// The node that rendering starts from, if one is chosen.
    pub fn master(&self) -> (master: Option<NodeIndex>)
        requires
            self.wf(),
        ensures
            match master {
                Some(index) => self@.master == Some(index as int),
                None => self@.master is None,
            },
    {
        self.master
    }
}

/// Cycle prevention: an edge may be added exactly when adding it leaves
/// the graph without a cycle. Of two nodes in the graph, `dest` is
/// upstream of `src` if and only if an edge from `src` to `dest` would
/// close a cycle; and a graph to which an admissible edge was added is
/// well formed again.
pub proof fn lemma_cycle_prevention<N: Empty>(view: GraphView<N>, src: int, dest: int)
    requires
        view.wf(),
        view.live(src),
        view.live(dest),
    ensures
        view.can_connect(src, dest) <==> !has_cycle(view.connect(src, dest).edges),
        view.can_connect(src, dest) ==> view.connect(src, dest).wf(),
{
    lemma_cycle_iff_upstream(view.edges, src, dest);
    if view.can_connect(src, dest) {
        let after = view.connect(src, dest);
        assert forall|k: int| 0 <= k < after.edges.len() implies {
            &&& 0 <= (#[trigger] after.edges[k]).0 < after.nodes.len()
            &&& 0 <= after.edges[k].1 < after.nodes.len()
        } by {
            if k < view.edges.len() {
                assert(after.edges[k] == view.edges[k]);
            }
        }
    }
}

/// Indices are stable: no change to the graph moves a node. A node that
/// is in the graph is found at its index, unchanged, after another node
/// was added, after any edge was added, after another node was removed,
/// and after the master was set.
pub proof fn lemma_indices_are_stable<N: Empty>(
    view: GraphView<N>,
    index: int,
    node: N,
    src: int,
    dest: int,
    other: int,
    master: Option<int>,
)
    requires
        view.wf(),
        view.live(index),
        other != index,
    ensures
        view.insert(node).lookup(index) == view.lookup(index),
        view.connect(src, dest).lookup(index) == view.lookup(index),
        view.live(other) ==> view.remove(other).lookup(index) == view.lookup(index),
        view.with_master(master).lookup(index) == view.lookup(index),
{
    lemma_insertion_index(view);
}

/// Index reuse: once the node at `index` is removed, nothing is
/// found there, the slot waits to be reused, and the next node that is
/// added gets `index` or a lower free slot; it gets `index` itself when
/// no lower slot is free. Whatever index it gets, it is found there.
pub proof fn lemma_index_reuse<N: Empty>(view: GraphView<N>, index: int, node: N)
    requires
        view.wf(),
        view.live(index),
    ensures
        view.remove(index).wf(),
        view.remove(index).lookup(index) is None,
        view.remove(index).has_free(),
        view.remove(index).insertion_index() <= index,
        (forall|j: int| 0 <= j < index ==> !#[trigger] view.free[j]) ==> view.remove(index).insertion_index() == index,
        view.remove(index).insert(node).lookup(view.remove(index).insertion_index()) == Some(node),
        forall|other: int| other != index ==> view.remove(index).lookup(other) == view.lookup(other),
{
    let after = view.remove(index);
    assert(after.free[index]);
    lemma_insertion_index(after);
    let target = after.insertion_index();
    if index < target {
        assert(!after.free[index]);
    }
    if forall|j: int| 0 <= j < index ==> !#[trigger] view.free[j] {
        assert forall|j: int| 0 <= j < index implies !#[trigger] after.free[j] by {
            assert(!view.free[j]);
        }
        assert(after.is_first_free(index));
        lemma_first_free_is_insertion_index(after, index);
    }
}

} // verus!
