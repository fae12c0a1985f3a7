use vstd::prelude::*;

verus! {

/// Why an operation on the engine was refused.
#[derive(Clone, Copy, Debug, PartialEq, Eq, Structural)]
pub enum Error {
    /// The edge would have closed a cycle; the graph is unchanged.
    CycleWouldBeCreated,
    /// An index named a removed slot or lay outside the graph.
    NodeNotFound,
    /// A source could not be set up, so no node was made of it.
    SourceConstructionFailed,
    /// A source or device does not have the engine's channel count.
    UnsupportedChannelLayout,
}

} // verus!
