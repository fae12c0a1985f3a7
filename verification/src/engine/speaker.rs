//! What the engine decides each time the output device asks for a
//! buffer.

use vstd::prelude::*;

use crate::audioformat::{OpsExt, STANDARD_CHANNELS};
use crate::engine::{ControlMsg, ControlReceiver};
use crate::error::Error;
use crate::graph::{rendered, AudioGraph};
use crate::processing::{silence, silent, Node};
use crate::util::empty::Empty;

verus! {

/// The engine that plays through the default output device.
pub struct SpeakerEngine;

/// The speaker engine under the name of the device library it drives.
pub struct CpalEngine;

/// The engine's own play/pause switch. It belongs to the render loop
/// alone: control operations change it, nobody else reads it.
pub struct PlaybackGate {
    paused: bool,
}

impl PlaybackGate {
    /// Whether rendering is held.
    pub closed spec fn held(&self) -> bool {
        self.paused
    }

    /// The switch after a control operation: `Play` opens it, `Pause`
    /// closes it, anything else leaves it as it is.
    pub open spec fn held_after(held: bool, msg: Option<ControlMsg>) -> bool {
        match msg {
            Some(ControlMsg::Play) => false,
            Some(ControlMsg::Pause) => true,
            _ => held,
        }
    }

    /// A gate that lets audio through.
    pub fn new() -> (gate: PlaybackGate)
        ensures
            !gate.held(),
    {
        PlaybackGate { paused: false }
    }

    /// Whether rendering is held.
    pub fn is_paused(&self) -> (paused: bool)
        ensures
            paused == self.held(),
    {
        self.paused
    }

    /// Takes the control operation that was pending at this callback, if
    /// there was one, and says what to do with the buffer: `true` to
    /// render the graph into it, `false` to fill it with silence and
    /// leave the graph alone.
    pub fn poll(&mut self, pending: Option<ControlMsg>) -> (render: bool)
        ensures
            final(self).held() == Self::held_after(old(self).held(), pending),
            render == !final(self).held(),
    {
        match pending {
            Some(ControlMsg::Play) => {
                self.paused = false;
            },
            Some(ControlMsg::Pause) => {
                self.paused = true;
            },
            _ => {},
        }
        !self.paused
    }
}

impl SpeakerEngine {
    /// Accepts a device or a decoded stream only if it has the engine's
    /// channel count.
    pub fn check_channels(channels: usize) -> (checked: Result<(), Error>)
        ensures
            checked is Ok <==> channels == STANDARD_CHANNELS,
            checked is Err ==> checked == Err::<(), Error>(Error::UnsupportedChannelLayout),
    {
        if channels == STANDARD_CHANNELS {
            Ok(())
        } else {
            Err(Error::UnsupportedChannelLayout)
        }
    }

    /// What the render loop does each time the device asks for a buffer:
    /// it polls the control channel, without waiting, for at most one
    /// pending operation, and goes on as `on_buffer_ready` says.
    pub fn on_callback<F: OpsExt, N: Node<F> + Empty>(
        gate: &mut PlaybackGate,
        controls: &ControlReceiver,
        graph: &mut AudioGraph<N>,
        output: &mut [F],
        sample_hz: u32,
    )
        requires
            old(graph).wf(),
        ensures
            final(graph).wf(),
            final(output)@.len() == old(output)@.len(),
            final(gate).held() ==> final(graph)@ == old(graph)@ && final(output)@ == silent::<F>(old(output)@.len()),
            !final(gate).held() ==> (exists|outs: spec_fn(int) -> Seq<F>|
                {
                    &&& #[trigger] rendered(old(graph)@, final(graph)@, outs, old(output)@.len())
                    &&& final(output)@ == match old(graph)@.master {
                        Some(master) => outs(master),
                        None => silent(old(output)@.len()),
                    }
                }),
    {
        let pending = controls.poll();
        Self::on_buffer_ready(gate, pending, graph, output, sample_hz);
    }

    /// What the render loop does with a buffer and the control operation
    /// that was pending, if there was one.
    ///
    /// First the pending control operation, if there is one, sets the
    /// play/pause switch. Then audio is pulled from the graph, unless
    /// playback is paused: then nothing is pulled, so that no source is
    /// advanced, and silence goes out.
    pub fn on_buffer_ready<F: OpsExt, N: Node<F> + Empty>(
        gate: &mut PlaybackGate,
        pending: Option<ControlMsg>,
        graph: &mut AudioGraph<N>,
        output: &mut [F],
        sample_hz: u32,
    )
        requires
            old(graph).wf(),
        ensures
            final(graph).wf(),
            final(gate).held() == PlaybackGate::held_after(old(gate).held(), pending),
            final(output)@.len() == old(output)@.len(),
            final(gate).held() ==> final(graph)@ == old(graph)@ && final(output)@ == silent::<F>(old(output)@.len()),
            !final(gate).held() ==> (exists|outs: spec_fn(int) -> Seq<F>|
                {
                    &&& #[trigger] rendered(old(graph)@, final(graph)@, outs, old(output)@.len())
                    &&& final(output)@ == match old(graph)@.master {
                        Some(master) => outs(master),
                        None => silent(old(output)@.len()),
                    }
                }),
    {
        if gate.poll(pending) {
            graph.audio_requested(output, sample_hz);
        } else {
            silence(output);
        }
    }

    /// How many frames fit a device buffer of `sample_count` interleaved
    /// samples.
    pub fn frame_count(sample_count: usize) -> (frames: usize)
        ensures
            frames == sample_count / STANDARD_CHANNELS,
    {
        sample_count / STANDARD_CHANNELS
    }
}

} // verus!
