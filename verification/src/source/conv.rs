use vstd::prelude::*;

use crate::source::AudioSource;
use crate::util::either::Either;

verus! {

/// What converts the frames of a source of type `S` from one sample
/// rate to another, pulling from the source as frames are asked of it.
/// How it interpolates is its own business; it is a source itself, at
/// the rate it converts to.
///
/// The converter holds the source it converts: `held` says which, and
/// `source_rate` at which rate it takes the source to run. Their bodies
/// are one fixed value each: a converter has to state its own to meet
/// the contracts below.
pub trait Resample<S: AudioSource>: AudioSource<Frame = S::Frame> {
    /// The source that is converted.
    open spec fn held(&self) -> S {
        arbitrary()
    }

    /// The rate that is converted from, in hertz.
    open spec fn source_rate(&self) -> u32 {
        arbitrary()
    }

    /// A converter around `source`, from `source_hz` to `target_hz`.
    /// Nothing is pulled from the source before a frame is asked for.
    fn from_hz_to_hz(source: S, source_hz: u32, target_hz: u32) -> (converter: Self)
        ensures
            converter.held() == source,
            converter.source_rate() == source_hz,
            converter.rate() == target_hz,
    ;

    /// The source that is converted.
    fn source(&self) -> (source: &S)
        ensures
            *source == self.held(),
    ;

    /// The source that is converted, to be changed in place. The rates
    /// stay as they are.
    fn source_mut(&mut self) -> (source: &mut S)
        ensures
            *source == old(self).held(),
            final(self).held() == *final(source),
            final(self).source_rate() == old(self).source_rate(),
            final(self).rate() == old(self).rate(),
    ;
}

/// A source that plays another at a target sample rate. If the other
/// runs at that very rate it is played as it is, with nothing in
/// between; otherwise it is played through a converter.
pub struct Converting<S, C> {
    inner: Either<S, C>,
    target_sample_hz: u32,
}

impl<S: AudioSource, C: Resample<S>> Converting<S, C> {
    /// What is played: the source itself, or a converter around it.
    pub closed spec fn inner(&self) -> Either<S, C> {
        self.inner
    }

    /// The rate that is played at.
    pub closed spec fn target(&self) -> u32 {
        self.target_sample_hz
    }

    /// The source that is played, whether or not a converter stands
    /// before it.
    pub open spec fn wrapped_spec(&self) -> S {
        match self.inner() {
            Either::Left(source) => source,
            Either::Right(converter) => converter.held(),
        }
    }

    /// What `to_sample_hz` plays `wrapped` through: nothing, if it runs at
    /// the target rate; else a converter that holds it and converts from
    /// its rate to the target rate.
    pub open spec fn plays(inner: Either<S, C>, target_sample_hz: u32, wrapped: S) -> bool {
        match inner {
            Either::Left(source) => wrapped.rate() == target_sample_hz && source == wrapped,
            Either::Right(converter) => {
                &&& wrapped.rate() != target_sample_hz
                &&& converter.held() == wrapped
                &&& converter.source_rate() == wrapped.rate()
                &&& converter.rate() == target_sample_hz
            },
        }
    }

    /// Plays `wrapped` at the target rate. The rates are compared as
    /// they are: only a source whose rate is exactly the target is
    /// played without a converter. Nothing is pulled from the source.
    pub fn to_sample_hz(target_sample_hz: u32, wrapped: S) -> (source: Converting<S, C>)
        ensures
            source.target() == target_sample_hz,
            Self::plays(source.inner(), target_sample_hz, wrapped),
            source.wrapped_spec() == wrapped,
    {
        let source_sample_hz = wrapped.sample_hz();
        Converting {
            inner: if target_sample_hz == source_sample_hz {
                Either::Left(wrapped)
            } else {
                Either::Right(C::from_hz_to_hz(wrapped, source_sample_hz, target_sample_hz))
            },
            target_sample_hz,
        }
    }

    /// The source that is played, whether or not a converter stands
    /// before it.
    pub fn wrapped(&self) -> (wrapped: &S)
        ensures
            *wrapped == self.wrapped_spec(),
    {
        match &self.inner {
            Either::Left(wrapped) => wrapped,
            Either::Right(converter) => converter.source(),
        }
    }

    /// The source that is played, to be changed in place. What is
    /// written through the reference is what is played from then on, at
    /// the same rates and through the same converter, if there is one.
    pub fn wrapped_mut(&mut self) -> (wrapped: &mut S)
        ensures
            *wrapped == old(self).wrapped_spec(),
            final(self).wrapped_spec() == *final(wrapped),
            final(self).target() == old(self).target(),
            match (old(self).inner(), final(self).inner()) {
                (Either::Left(_), Either::Left(_)) => true,
                (Either::Right(before), Either::Right(after)) => after.source_rate() == before.source_rate()
                    && after.rate() == before.rate(),
                _ => false,
            },
    {
        match &mut self.inner {
            Either::Left(wrapped) => wrapped,
            Either::Right(converter) => converter.source_mut(),
        }
    }
}

impl<S: AudioSource, C: Resample<S>> AudioSource for Converting<S, C> {
    type Frame = S::Frame;

    open spec fn rate(&self) -> u32 {
        self.target()
    }

    open spec fn exhausted(&self) -> bool {
        self.inner().exhausted()
    }

    open spec fn pulls(&self, after: &Self, frame: S::Frame) -> bool {
        after.target() == self.target() && self.inner().pulls(&after.inner(), frame)
    }

    fn sample_hz(&self) -> (hz: u32) {
        self.target_sample_hz
    }

    fn next(&mut self) -> (frame: S::Frame) {
        self.inner.next()
    }

    fn is_exhausted(&self) -> (exhausted: bool) {
        self.inner.is_exhausted()
    }
}

/// A source that is played at its own rate is played as it is: frame
/// for frame, pulling from the converting source is pulling from the
/// source inside.
pub proof fn lemma_same_rate_is_identity<S: AudioSource, C: Resample<S>>(
    before: Converting<S, C>,
    after: Converting<S, C>,
    source: S,
    frame: S::Frame,
)
    requires
        before.inner() == Either::<S, C>::Left(source),
    ensures
        before.pulls(&after, frame) <==> {
            &&& after.target() == before.target()
            &&& after.inner() matches Either::Left(rest)
            &&& source.pulls(&rest, frame)
        },
        before.exhausted() == source.exhausted(),
{
}

} // verus!
