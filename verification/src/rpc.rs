//! The graph as the control plane sees it: plain indices.

use vstd::prelude::*;

use crate::graph::Edge;

verus! {

pub type RpcNodeIndex = usize;

pub type RpcEdgeIndex = usize;

/// An edge of the audio graph.
#[derive(Clone, Copy, Debug)]
pub struct RpcEdge {
    pub src: RpcNodeIndex,
    pub dest: RpcNodeIndex,
}

impl RpcEdge {
    pub fn between(src: RpcNodeIndex, dest: RpcNodeIndex) -> (edge: RpcEdge)
        ensures
            edge.src == src,
            edge.dest == dest,
    {
        RpcEdge { src, dest }
    }

    /// The edges of a graph, each as the control plane sees it.
    pub fn from_edges(edges: &Vec<Edge>) -> (list: Vec<RpcEdge>)
        ensures
            list@.len() == edges@.len(),
            forall|k: int|
                0 <= k < list@.len() ==> (#[trigger] list@[k]).src == edges@[k].src && list@[k].dest
                    == edges@[k].dest,
    {
        let mut list: Vec<RpcEdge> = Vec::new();
        let mut k: usize = 0;
        while k < edges.len()
            invariant
                k <= edges@.len(),
                list@.len() == k,
                forall|j: int|
                    0 <= j < k ==> (#[trigger] list@[j]).src == edges@[j].src && list@[j].dest == edges@[j].dest,
            decreases edges@.len() - k,
        {
            list.push(RpcEdge::between(edges[k].src, edges[k].dest));
            k += 1;
        }
        list
    }
}

} // verus!
