use vstd::prelude::*;

use crate::audioformat::OpsExt;
use crate::processing::filter::{
    filtered, Disableable, Filter, IIRHighpassFilter, IIRLowpassFilter, MovingAverageFilter,
};
use crate::processing::{amplify, apply_filter, read_signal_into, scaled, silence, silent, Node};
use crate::source::pausable::Pausable;
use crate::source::{pulled, AudioSource};
use crate::util::empty::Empty;

verus! {

/// An audio processing node: a source, or something that transforms
/// the buffer it is handed.
///
/// What changes how a source plays, such as pausing it, should be a
/// decorator of the source rather than a node of its own.
///
/// The node is generic in what only the program around the engine can
/// provide: `FS` is the source that plays a file, `CS` the source that
/// plays what a command puts out, `DS` and `DF` are any other source and
/// filter.
pub enum DspNode<F: OpsExt, FS, CS, DS, DF> {
    /// Passes on what it is handed.
    Empty,
    /// Puts out silence, whatever it is handed.
    Silence,
    /// Scales what it is handed.
    Volume(F::Gain),
    File(Pausable<FS>),
    Command(Pausable<CS>),
    DynSource(DS),
    MovingAverage(Disableable<MovingAverageFilter<F>>),
    IIRLowpass(Disableable<IIRLowpassFilter<F>>),
    IIRHighpass(Disableable<IIRHighpassFilter<F>>),
    DynFilter(DF),
}

impl<F: OpsExt, FS, CS, DS, DF> Empty for DspNode<F, FS, CS, DS, DF> {
    open spec fn empty_spec() -> Self {
        DspNode::Empty
    }

    fn empty() -> (value: Self) {
        DspNode::Empty
    }
}

impl<
    F: OpsExt,
    FS: AudioSource<Frame = F>,
    CS: AudioSource<Frame = F>,
    DS: AudioSource<Frame = F>,
    DF: Filter<Frame = F>,
> Node<F> for DspNode<F, FS, CS, DS, DF> {
    /// A node stays the kind of node it is. `Empty` passes the buffer
    /// on, `Silence` silences it, `Volume` scales every frame. A source
    /// overwrites the buffer with one pull per frame; what the node was
    /// handed is dropped, for a source is where audio begins. A filter
    /// passes the frames through in order.
    open spec fn renders(&self, input: Seq<F>, after: &Self, output: Seq<F>) -> bool {
        match (*self, *after) {
            (DspNode::Empty, DspNode::Empty) => output == input,
            (DspNode::Silence, DspNode::Silence) => output == silent::<F>(input.len()),
            (DspNode::Volume(gain), DspNode::Volume(same)) => same == gain && output == scaled(input, gain),
            (DspNode::File(source), DspNode::File(rest)) => output.len() == input.len() && pulled(source, output, rest),
            (DspNode::Command(source), DspNode::Command(rest)) => output.len() == input.len() && pulled(
                source,
                output,
                rest,
            ),
            (DspNode::DynSource(source), DspNode::DynSource(rest)) => output.len() == input.len() && pulled(
                source,
                output,
                rest,
            ),
            (DspNode::MovingAverage(filter), DspNode::MovingAverage(next)) => filtered(filter, input, next, output),
            (DspNode::IIRLowpass(filter), DspNode::IIRLowpass(next)) => filtered(filter, input, next, output),
            (DspNode::IIRHighpass(filter), DspNode::IIRHighpass(next)) => filtered(filter, input, next, output),
            (DspNode::DynFilter(filter), DspNode::DynFilter(next)) => filtered(filter, input, next, output),
            _ => false,
        }
    }

    fn audio_requested(&mut self, buffer: &mut [F], sample_hz: u32) {
        match self {
            DspNode::Empty => {},
            DspNode::Silence => silence(buffer),
            DspNode::Volume(gain) => amplify(buffer, *gain),
            DspNode::File(source) => read_signal_into(buffer, source),
            DspNode::Command(source) => read_signal_into(buffer, source),
            DspNode::DynSource(source) => read_signal_into(buffer, source),
            DspNode::MovingAverage(filter) => apply_filter(buffer, filter),
            DspNode::IIRLowpass(filter) => apply_filter(buffer, filter),
            DspNode::IIRHighpass(filter) => apply_filter(buffer, filter),
            DspNode::DynFilter(filter) => apply_filter(buffer, filter),
        }
    }
}

} // verus!
