//! A player on top of the audio graph: one source that plays through a
//! highpass, a lowpass and a volume control.

use vstd::prelude::*;

use crate::audioformat::{Frame, OpsExt, Scalar};
use crate::engine::{BackgroundEngine, ControlMsg};
use crate::error::Error;
use crate::graph::{lemma_insertion_index, AudioGraph, GraphView, NodeIndex};
use crate::processing::dspnode::DspNode;
use crate::processing::filter::{
    highpass_alpha, lowpass_alpha, CutoffFreq, Disableable, IIRHighpassFilter, IIRLowpassFilter,
};
use crate::source::pausable::Pausable;

verus! {

/// The cutoff of the player's lowpass in hertz.
pub const LOWPASS_CUTOFF_HZ: u32 = 500;

/// The cutoff of the player's highpass in hertz.
pub const HIGHPASS_CUTOFF_HZ: u32 = 13_000;

/// A high-level audio playing facility that hides the audio graph
/// behind a few operations. It knows the nodes of the chain it has
/// built:
///
/// source -> highpass -> lowpass -> volume -> master
pub struct AudioPlayerService {
    src_node: NodeIndex,
    volume_node: NodeIndex,
    lowpass_node: NodeIndex,
    highpass_node: NodeIndex,
    engine: BackgroundEngine,
}

/// The graph in which nothing is free stays so when a node is added.
proof fn lemma_insert_without_free<N>(view: GraphView<N>, node: N)
    requires
        view.free.len() == view.nodes.len(),
        !view.has_free(),
    ensures
        view.insert(node).nodes == view.nodes.push(node),
        view.insert(node).free == view.free.push(false),
        !view.insert(node).has_free(),
        view.insertion_index() == view.nodes.len(),
{
    lemma_insertion_index(view);
    let after = view.insert(node);
    assert forall|i: int| 0 <= i < after.free.len() implies !#[trigger] after.free[i] by {
        if i < view.free.len() {
            assert(!view.free[i]);
        }
    }
}

impl AudioPlayerService {
    /// The node that plays.
    pub closed spec fn src_node(&self) -> NodeIndex {
        self.src_node
    }

    /// The node that sets the volume.
    pub closed spec fn volume_node(&self) -> NodeIndex {
        self.volume_node
    }

    /// The node of the lowpass.
    pub closed spec fn lowpass_node(&self) -> NodeIndex {
        self.lowpass_node
    }

    /// The node of the highpass.
    pub closed spec fn highpass_node(&self) -> NodeIndex {
        self.highpass_node
    }

    /// The output sample rate of the engine that plays.
    pub closed spec fn sample_rate(&self) -> u32 {
        self.engine.sample_hz
    }

    /// Builds the graph of the player and the service that knows its
    /// nodes. The master passes on what the volume node gives; the volume
    /// node, which passes on what it is handed until a volume is set, is
    /// fed by the lowpass, that by the highpass, and that by the source
    /// node, which plays nothing yet. Both filters are switched off.
    pub fn constructing_graph<F: OpsExt, FS, CS, DS, DF>(engine: BackgroundEngine) -> (built: (
        AudioGraph<DspNode<F, FS, CS, DS, DF>>,
        AudioPlayerService,
    ))
        ensures
            built.0.wf(),
            built.0@.master == Some(0int),
            built.0@.free == Seq::new(5, |i: int| false),
            built.0@.edges == seq![(1int, 0int), (2int, 1int), (3int, 2int), (4int, 3int)],
            built.0@.nodes.len() == 5,
            built.0@.nodes[0] is Empty,
            built.0@.nodes[1] is Empty,
            built.0@.nodes[2] matches DspNode::IIRLowpass(filter) && {
                &&& filter.disabled
                &&& filter.wrapped.last_output() == F::equilibrium_spec()
                &&& filter.wrapped.cutoff_spec() == F::Gain::from_hz_spec(LOWPASS_CUTOFF_HZ)
                &&& filter.wrapped.sample_rate() == engine.sample_hz
                &&& filter.wrapped.alpha() == lowpass_alpha(F::Gain::from_hz_spec(LOWPASS_CUTOFF_HZ), engine.sample_hz)
            },
            built.0@.nodes[3] matches DspNode::IIRHighpass(filter) && {
                &&& filter.disabled
                &&& filter.wrapped.last_input() == F::equilibrium_spec()
                &&& filter.wrapped.last_output() == F::equilibrium_spec()
                &&& filter.wrapped.cutoff_spec() == F::Gain::from_hz_spec(HIGHPASS_CUTOFF_HZ)
                &&& filter.wrapped.sample_rate() == engine.sample_hz
                &&& filter.wrapped.alpha()
                    == highpass_alpha(F::Gain::from_hz_spec(HIGHPASS_CUTOFF_HZ), engine.sample_hz)
            },
            built.0@.nodes[4] is Empty,
            built.1.src_node() == 4,
            built.1.highpass_node() == 3,
            built.1.lowpass_node() == 2,
            built.1.volume_node() == 1,
            built.1.sample_rate() == engine.sample_hz,
    {
        let sample_hz = engine.sample_hz;
        let mut graph: AudioGraph<DspNode<F, FS, CS, DS, DF>> = AudioGraph::new();
        proof {
            graph.lemma_wf();
            lemma_insert_without_free(graph@, DspNode::Empty);
        }
        let master_node = graph.add_node(DspNode::Empty);
        proof {
            graph.lemma_wf();
            lemma_insert_without_free(graph@, DspNode::Empty);
        }
        let volume_node = match graph.add_input(DspNode::Empty, master_node) {
            Ok(added) => added.1,
            Err(_) => master_node,
        };
        let lowpass: DspNode<F, FS, CS, DS, DF> = DspNode::IIRLowpass(
            Disableable::disabled(IIRLowpassFilter::from_cutoff_hz(F::Gain::from_hz(LOWPASS_CUTOFF_HZ), sample_hz)),
        );
        proof {
            graph.lemma_wf();
            lemma_insert_without_free(graph@, lowpass);
        }
        let lowpass_node = match graph.add_input(lowpass, volume_node) {
            Ok(added) => added.1,
            Err(_) => master_node,
        };
        let highpass: DspNode<F, FS, CS, DS, DF> = DspNode::IIRHighpass(
            Disableable::disabled(IIRHighpassFilter::from_cutoff_hz(F::Gain::from_hz(HIGHPASS_CUTOFF_HZ), sample_hz)),
        );
        proof {
            graph.lemma_wf();
            lemma_insert_without_free(graph@, highpass);
        }
        let highpass_node = match graph.add_input(highpass, lowpass_node) {
            Ok(added) => added.1,
            Err(_) => master_node,
        };
        proof {
            graph.lemma_wf();
            lemma_insert_without_free(graph@, DspNode::Empty);
        }
        let src_node = match graph.add_input(DspNode::Empty, highpass_node) {
            Ok(added) => added.1,
            Err(_) => master_node,
        };
        graph.set_master(Some(master_node));
        proof {
            assert(graph@.free =~= Seq::new(5, |i: int| false));
            assert(graph@.edges =~= seq![(1int, 0int), (2int, 1int), (3int, 2int), (4int, 3int)]);
        }
        (graph, AudioPlayerService { src_node, volume_node, lowpass_node, highpass_node, engine })
    }

    /// Puts `source` in place of what the source node plays, playing.
    /// Fails with `NodeNotFound`, leaving the graph as it is, if the source
    /// node is gone.
    pub fn enqueue<F: OpsExt, FS, CS, DS, DF>(
        &self,
        graph: &mut AudioGraph<DspNode<F, FS, CS, DS, DF>>,
        source: FS,
    ) -> (queued:
        Result<(), Error>)
        requires
            old(graph).wf(),
        ensures
            final(graph).wf(),
            queued is Ok <==> old(graph)@.live(self.src_node() as int),
            queued is Ok ==> final(graph)@ == old(graph)@.with_node(
                self.src_node() as int,
                DspNode::File(Pausable { wrapped: source, paused: false }),
            ),
            queued is Err ==> queued == Err::<(), Error>(Error::NodeNotFound) && final(graph)@ == old(graph)@,
    {
        graph.replace_node(self.src_node, DspNode::File(Pausable::playing(source)))
    }

    /// Tells the engine to play and says whether the engine was told.
    pub fn play(&self) -> (delivered: bool) {
        self.engine.controls.send(Self::play_operation())
    }

    /// Tells the engine to pause and says whether the engine was told.
    pub fn pause(&self) -> (delivered: bool) {
        self.engine.controls.send(Self::pause_operation())
    }

    /// The control operation that `play` sends.
    pub fn play_operation() -> (operation: ControlMsg)
        ensures
            operation == ControlMsg::Play,
    {
        ControlMsg::Play
    }

    /// The control operation that `pause` sends.
    pub fn pause_operation() -> (operation: ControlMsg)
        ensures
            operation == ControlMsg::Pause,
    {
        ControlMsg::Pause
    }

    /// Sets the volume. Fails with `NodeNotFound`, leaving the graph as it
    /// is, if the volume node is gone.
    pub fn set_volume<F: OpsExt, FS, CS, DS, DF>(
        &self,
        graph: &mut AudioGraph<DspNode<F, FS, CS, DS, DF>>,
        volume: F::Gain,
    ) -> (set: Result<(), Error>)
        requires
            old(graph).wf(),
        ensures
            final(graph).wf(),
            set is Ok <==> old(graph)@.live(self.volume_node() as int),
            set is Ok ==> final(graph)@ == old(graph)@.with_node(self.volume_node() as int, DspNode::Volume(volume)),
            set is Err ==> set == Err::<(), Error>(Error::NodeNotFound) && final(graph)@ == old(graph)@,
    {
        graph.replace_node(self.volume_node, DspNode::Volume(volume))
    }

    /// Switches the lowpass on or off. A lowpass node that has been
    /// replaced by a node of another kind is left alone. Fails with
    /// `NodeNotFound` if the node is gone.
    pub fn set_lowpass_enabled<F: OpsExt, FS, CS, DS, DF>(
        &self,
        graph: &mut AudioGraph<DspNode<F, FS, CS, DS, DF>>,
        enabled: bool,
    ) -> (set: Result<(), Error>)
        requires
            old(graph).wf(),
        ensures
            final(graph).wf(),
            set is Ok <==> old(graph)@.live(self.lowpass_node() as int),
            set is Ok ==> final(graph)@ == old(graph)@.with_node(
                self.lowpass_node() as int,
                match old(graph)@.nodes[self.lowpass_node() as int] {
                    DspNode::IIRLowpass(filter) => DspNode::IIRLowpass(
                        Disableable { wrapped: filter.wrapped, disabled: !enabled },
                    ),
                    other => other,
                },
            ),
            set is Err ==> set == Err::<(), Error>(Error::NodeNotFound) && final(graph)@ == old(graph)@,
    {
        match graph.node_mut(self.lowpass_node) {
            Some(node) => {
                match node {
                    DspNode::IIRLowpass(filter) => {
                        filter.disabled = !enabled;
                    },
                    _ => {},
                }
                Ok(())
            },
            None => Err(Error::NodeNotFound),
        }
    }

    /// Switches the highpass on or off. A highpass node that has been
    /// replaced by a node of another kind is left alone. Fails with
    /// `NodeNotFound` if the node is gone.
    pub fn set_highpass_enabled<F: OpsExt, FS, CS, DS, DF>(
        &self,
        graph: &mut AudioGraph<DspNode<F, FS, CS, DS, DF>>,
        enabled: bool,
    ) -> (set: Result<(), Error>)
        requires
            old(graph).wf(),
        ensures
            final(graph).wf(),
            set is Ok <==> old(graph)@.live(self.highpass_node() as int),
            set is Ok ==> final(graph)@ == old(graph)@.with_node(
                self.highpass_node() as int,
                match old(graph)@.nodes[self.highpass_node() as int] {
                    DspNode::IIRHighpass(filter) => DspNode::IIRHighpass(
                        Disableable { wrapped: filter.wrapped, disabled: !enabled },
                    ),
                    other => other,
                },
            ),
            set is Err ==> set == Err::<(), Error>(Error::NodeNotFound) && final(graph)@ == old(graph)@,
    {
        match graph.node_mut(self.highpass_node) {
            Some(node) => {
                match node {
                    DspNode::IIRHighpass(filter) => {
                        filter.disabled = !enabled;
                    },
                    _ => {},
                }
                Ok(())
            },
            None => Err(Error::NodeNotFound),
        }
    }
}

} // verus!
