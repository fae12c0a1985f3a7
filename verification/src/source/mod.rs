//! Audio sources: whatever frames can be pulled from, one at a time.

pub mod command;
pub mod conv;
pub mod file;
pub mod mp3;
pub mod pausable;

use vstd::prelude::*;

use crate::audioformat::Frame;
use crate::util::either::Either;

verus! {

/// The sample rate of a silent source, in hertz.
pub const SILENT_SAMPLE_HZ: u32 = 44_100;

/// A source of audio: frames are pulled from it one by one, at its own
/// sample rate, for as long as the caller likes.
///
/// A source may run dry. It then says so, and from there on hands out
/// silence: pulling never fails.
///
/// What a pull may do is said by `pulls`, a relation, since a source
/// may read from a file or a pipe. A source that leaves `pulls` as it
/// is allows every outcome. The bodies of `rate` and `exhausted` are one
/// fixed value for all sources of a type; a source whose rate or state
/// differs from one value or moment to the next has to state its own.
pub trait AudioSource: Sized {
    type Frame: Frame;

    /// The native sample rate in hertz.
    open spec fn rate(&self) -> u32 {
        arbitrary()
    }

    /// The source has nothing left but silence.
    open spec fn exhausted(&self) -> bool {
        arbitrary()
    }

    /// Pulling one frame from `self` may yield `frame` and leave `after`.
    open spec fn pulls(&self, after: &Self, frame: Self::Frame) -> bool {
        true
    }

    /// The native sample rate in hertz.
    fn sample_hz(&self) -> (hz: u32)
        ensures
            hz == self.rate(),
    ;

    /// Pulls exactly one frame.
    fn next(&mut self) -> (frame: Self::Frame)
        ensures
            old(self).pulls(final(self), frame),
            final(self).rate() == old(self).rate(),
            old(self).exhausted() ==> final(self).exhausted() && frame == Self::Frame::equilibrium_spec(),
    ;

    /// Whether the source has run dry.
    fn is_exhausted(&self) -> (exhausted: bool)
        ensures
            exhausted == self.exhausted(),
    ;
}

/// `states` are the states a source goes through while `frames` are
/// pulled from it one after another.
pub open spec fn pull_trace<S: AudioSource>(states: Seq<S>, frames: Seq<S::Frame>) -> bool {
    &&& states.len() == frames.len() + 1
    &&& forall|i: int| 0 <= i < frames.len() ==> (#[trigger] states[i]).pulls(&states[i + 1], frames[i])
}

/// Pulling from `before` once for each of `frames` may yield them, in
/// order, and leave `after`.
pub open spec fn pulled<S: AudioSource>(before: S, frames: Seq<S::Frame>, after: S) -> bool {
    exists|states: Seq<S>| pull_trace(states, frames) && #[trigger] states[0] == before && states.last() == after
}

/// Either of two sources of the same frames is a source: it does what
/// the alternative it holds does.
impl<L: AudioSource, R: AudioSource<Frame = L::Frame>> AudioSource for Either<L, R> {
    type Frame = L::Frame;

    open spec fn rate(&self) -> u32 {
        match self {
            Either::Left(source) => source.rate(),
            Either::Right(source) => source.rate(),
        }
    }

    open spec fn exhausted(&self) -> bool {
        match self {
            Either::Left(source) => source.exhausted(),
            Either::Right(source) => source.exhausted(),
        }
    }

    open spec fn pulls(&self, after: &Self, frame: L::Frame) -> bool {
        match (self, after) {
            (Either::Left(source), Either::Left(rest)) => source.pulls(rest, frame),
            (Either::Right(source), Either::Right(rest)) => source.pulls(rest, frame),
            _ => false,
        }
    }

    fn sample_hz(&self) -> (hz: u32) {
        match self {
            Either::Left(source) => source.sample_hz(),
            Either::Right(source) => source.sample_hz(),
        }
    }

    fn next(&mut self) -> (frame: L::Frame) {
        match self {
            Either::Left(source) => source.next(),
            Either::Right(source) => source.next(),
        }
    }

    fn is_exhausted(&self) -> (exhausted: bool) {
        match self {
            Either::Left(source) => source.is_exhausted(),
            Either::Right(source) => source.is_exhausted(),
        }
    }
}

/// A source of silence that never runs dry.
pub struct EquilibriumSource<F> {
    phantom: core::marker::PhantomData<F>,
}

impl<F> EquilibriumSource<F> {
    pub fn new() -> (source: EquilibriumSource<F>) {
        EquilibriumSource { phantom: core::marker::PhantomData }
    }
}

impl<F: Frame> AudioSource for EquilibriumSource<F> {
    type Frame = F;

    open spec fn rate(&self) -> u32 {
        SILENT_SAMPLE_HZ
    }

    open spec fn exhausted(&self) -> bool {
        false
    }

    open spec fn pulls(&self, after: &Self, frame: F) -> bool {
        frame == F::equilibrium_spec()
    }

    fn sample_hz(&self) -> (hz: u32) {
        SILENT_SAMPLE_HZ
    }

    fn next(&mut self) -> (frame: F) {
        F::equilibrium()
    }

    fn is_exhausted(&self) -> (exhausted: bool) {
        false
    }
}

/// A source that has nothing to give: it is exhausted from the start.
pub struct EmptySource;

impl EmptySource {
    /// The nominal sample rate in hertz.
    pub fn sample_hz(&self) -> (hz: u32)
        ensures
            hz == SILENT_SAMPLE_HZ,
    {
        SILENT_SAMPLE_HZ
    }

    /// Silence, in whatever frame type is asked for.
    pub fn next<F: Frame>(&mut self) -> (frame: F)
        ensures
            frame == F::equilibrium_spec(),
    {
        F::equilibrium()
    }

    /// Always true.
    pub fn is_exhausted(&self) -> (exhausted: bool)
        ensures
            exhausted,
    {
        true
    }
}

} // verus!
