use vstd::prelude::*;

use crate::audioformat::Frame;
use crate::source::{pull_trace, AudioSource};

verus! {

/// A source that can be paused. While paused it hands out silence and
/// leaves the wrapped source untouched, so that playback resumes exactly
/// where it stopped.
pub struct Pausable<S> {
    pub wrapped: S,
    pub paused: bool,
}

impl<S> Pausable<S> {
    pub fn new(wrapped: S, paused: bool) -> (source: Pausable<S>)
        ensures
            source.wrapped == wrapped,
            source.paused == paused,
    {
        Pausable { wrapped, paused }
    }

    /// Wraps the source, paused.
    pub fn paused(wrapped: S) -> (source: Pausable<S>)
        ensures
            source.wrapped == wrapped,
            source.paused,
    {
        Pausable { wrapped, paused: true }
    }

    /// Wraps the source, playing.
    pub fn playing(wrapped: S) -> (source: Pausable<S>)
        ensures
            source.wrapped == wrapped,
            !source.paused,
    {
        Pausable { wrapped, paused: false }
    }

    /// The same pause state around another inner value: what is used to
    /// swap the source of a node without touching its transport state.
    pub fn with<T>(&self, wrapped: T) -> (source: Pausable<T>)
        ensures
            source.wrapped == wrapped,
            source.paused == self.paused,
    {
        Pausable { wrapped, paused: self.paused }
    }
}

impl<S: AudioSource> AudioSource for Pausable<S> {
    type Frame = S::Frame;

    open spec fn rate(&self) -> u32 {
        self.wrapped.rate()
    }

    open spec fn exhausted(&self) -> bool {
        self.wrapped.exhausted()
    }

    open spec fn pulls(&self, after: &Self, frame: S::Frame) -> bool {
        &&& after.paused == self.paused
        &&& if self.paused {
            after.wrapped == self.wrapped && frame == S::Frame::equilibrium_spec()
        } else {
            self.wrapped.pulls(&after.wrapped, frame)
        }
    }

    fn sample_hz(&self) -> (hz: u32) {
        self.wrapped.sample_hz()
    }

    fn next(&mut self) -> (frame: S::Frame) {
        if self.paused {
            S::Frame::equilibrium()
        } else {
            self.wrapped.next()
        }
    }

    fn is_exhausted(&self) -> (exhausted: bool) {
        self.wrapped.is_exhausted()
    }
}

/// Pausing is idempotent. However often a paused source is pulled, the
/// source inside is not touched and only silence comes out; and since
/// nothing but a pull changes the source inside, playback resumes
/// exactly where it stopped: once playing again, the source pulls as if
/// it had never been paused.
pub proof fn lemma_paused_source_rests<S: AudioSource>(states: Seq<Pausable<S>>, frames: Seq<S::Frame>, i: int)
    requires
        pull_trace(states, frames),
        states[0].paused,
        0 <= i < states.len(),
    ensures
        states[i].paused,
        states[i].wrapped == states[0].wrapped,
        i < frames.len() ==> frames[i] == S::Frame::equilibrium_spec(),
        forall|after: Pausable<S>, frame: S::Frame|
            (Pausable { wrapped: states[i].wrapped, paused: false }).pulls(&after, frame) <==> (Pausable {
                wrapped: states[0].wrapped,
                paused: false,
            }).pulls(&after, frame),
    decreases i,
{
    if i > 0 {
        lemma_paused_source_rests(states, frames, i - 1);
        assert(states[i - 1].pulls(&states[i - 1 + 1], frames[i - 1]));
    }
    if i < frames.len() {
        assert(states[i].pulls(&states[i + 1], frames[i]));
    }
}

} // verus!
