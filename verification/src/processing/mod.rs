//! What a node of the audio graph does to a buffer of frames.

pub mod dspnode;
pub mod filter;

use vstd::prelude::*;

use crate::audioformat::{Frame, OpsExt};
use crate::processing::filter::{filter_trace, filtered, Filter};
use crate::source::{pull_trace, pulled, AudioSource};

verus! {

/// What can stand at a node of the audio graph. Once per render pass the
/// node is handed a buffer that holds the mix of its inputs (silence,
/// if it has none) and leaves in it what it passes on.
///
/// What the node does with a buffer is said by `renders`. A node that
/// leaves `renders` as it is allows every outcome of the same length.
pub trait Node<F: Frame>: Sized {
    /// Handed `input`, the node may leave `output` in the buffer and be
    /// `after` afterwards.
    open spec fn renders(&self, input: Seq<F>, after: &Self, output: Seq<F>) -> bool {
        true
    }

    /// Processes one buffer in place.
    fn audio_requested(&mut self, buffer: &mut [F], sample_hz: u32)
        ensures
            final(buffer)@.len() == old(buffer)@.len(),
            old(self).renders(old(buffer)@, final(self), final(buffer)@),
    ;
}

/// A buffer of `len` silent frames.
pub open spec fn silent<F: Frame>(len: nat) -> Seq<F> {
    Seq::new(len, |i: int| F::equilibrium_spec())
}

/// `frames`, each scaled by `gain`.
pub open spec fn scaled<F: OpsExt>(frames: Seq<F>, gain: F::Gain) -> Seq<F> {
    Seq::new(frames.len(), |i: int| frames[i].scale_spec(gain))
}

/// Silences the buffer, whatever it held.
pub fn silence<F: Frame>(buffer: &mut [F])
    ensures
        final(buffer)@ == silent::<F>(old(buffer)@.len()),
{
    let len: usize = buffer.len();
    let mut i: usize = 0;
    while i < len
        invariant
            i <= len,
            buffer@.len() == len,
            len == old(buffer)@.len(),
            forall|j: int| 0 <= j < i ==> buffer@[j] == F::equilibrium_spec(),
        decreases len - i,
    {
        buffer[i] = F::equilibrium();
        i += 1;
    }
    assert(buffer@ =~= silent::<F>(len as nat));
}

/// Scales every frame of the buffer by `gain`.
pub fn amplify<F: OpsExt>(buffer: &mut [F], gain: F::Gain)
    ensures
        final(buffer)@ == scaled(old(buffer)@, gain),
{
    let len: usize = buffer.len();
    let mut i: usize = 0;
    while i < len
        invariant
            i <= len,
            buffer@.len() == len,
            len == old(buffer)@.len(),
            forall|j: int| 0 <= j < i ==> buffer@[j] == old(buffer)@[j].scale_spec(gain),
            forall|j: int| i <= j < len ==> buffer@[j] == old(buffer)@[j],
        decreases len - i,
    {
        let frame = buffer[i];
        buffer[i] = frame.scale(gain);
        i += 1;
    }
    assert(buffer@ =~= scaled(old(buffer)@, gain));
}

/// Fills the buffer with frames pulled from the source, one pull per
/// frame, in order. What the buffer held is overwritten.
pub fn read_signal_into<S: AudioSource>(buffer: &mut [S::Frame], source: &mut S)
    ensures
        final(buffer)@.len() == old(buffer)@.len(),
        pulled(*old(source), final(buffer)@, *final(source)),
{
    let len: usize = buffer.len();
    let mut i: usize = 0;
    let ghost mut states: Seq<S> = seq![*source];
    while i < len
        invariant
            i <= len,
            buffer@.len() == len,
            len == old(buffer)@.len(),
            pull_trace(states, buffer@.take(i as int)),
            states[0] == *old(source),
            states.last() == *source,
        decreases len - i,
    {
        let ghost earlier = states;
        let ghost before = buffer@;
        let frame = source.next();
        buffer[i] = frame;
        proof {
            states = earlier.push(*source);
            let now = buffer@.take(i + 1);
            assert forall|j: int| 0 <= j < now.len() implies (#[trigger] states[j]).pulls(&states[j + 1], now[j]) by {
                if j < i {
                    assert(states[j] == earlier[j]);
                    assert(states[j + 1] == earlier[j + 1]);
                    assert(now[j] == before.take(i as int)[j]);
                }
            }
        }
        i += 1;
    }
    assert(buffer@.take(len as int) =~= buffer@);
}

/// Passes the frames of the buffer through the filter, in order, and
/// leaves in the buffer what came out.
pub fn apply_filter<L: Filter>(buffer: &mut [L::Frame], filter: &mut L)
    ensures
        filtered(*old(filter), old(buffer)@, *final(filter), final(buffer)@),
{
    let len: usize = buffer.len();
    let mut i: usize = 0;
    let ghost mut states: Seq<L> = seq![*filter];
    while i < len
        invariant
            i <= len,
            buffer@.len() == len,
            len == old(buffer)@.len(),
            filter_trace(states, old(buffer)@.take(i as int), buffer@.take(i as int)),
            states[0] == *old(filter),
            states.last() == *filter,
            forall|j: int| i <= j < len ==> buffer@[j] == old(buffer)@[j],
        decreases len - i,
    {
        let ghost earlier = states;
        let ghost before = buffer@;
        let input = buffer[i];
        let output = filter.apply(input);
        buffer[i] = output;
        proof {
            states = earlier.push(*filter);
            let inputs = old(buffer)@.take(i + 1);
            let outputs = buffer@.take(i + 1);
            assert forall|j: int| 0 <= j < inputs.len() implies
                (#[trigger] states[j]).applies(inputs[j], &states[j + 1], outputs[j]) by {
                if j < i {
                    assert(states[j] == earlier[j]);
                    assert(states[j + 1] == earlier[j + 1]);
                    assert(inputs[j] == old(buffer)@.take(i as int)[j]);
                    assert(outputs[j] == before.take(i as int)[j]);
                }
            }
        }
        i += 1;
    }
    proof {
        assert(buffer@.take(len as int) =~= buffer@);
        assert(old(buffer)@.take(len as int) =~= old(buffer)@);
    }
}

} // verus!
