//! The frames that flow through the engine: one sample per channel.
//!
//! The engine moves and mixes frames without looking inside them. What
//! it needs of a frame type is said by the traits of this module:
//! `Frame`, the silent frame; `OpsExt`, arithmetic on the amplitude; and
//! `Scalar`, the numbers that amplitudes are scaled by.
//!
//! Each operation comes with a function of the same name and the ending
//! `_spec`, which says what the operation computes, and the operation is
//! held to it.
//!
//! The `_spec` functions have a body, so that a type whose arithmetic
//! cannot be written down here, such as one over floating point numbers,
//! can implement the traits without them. That body is one fixed value,
//! whatever the operands are. It describes no arithmetic: a type that
//! keeps it for an operation with operands has not said what the
//! operation computes, and does not meet the operation's contract.
//! Nothing that is proved in this crate rests on these bodies, for what
//! is generic in a frame or a scalar sees the declarations alone.

use vstd::prelude::*;

verus! {

/// The number of channels of a frame.
pub const STANDARD_CHANNELS: usize = 2;

/// One sample per channel, the unit in which audio is pulled.
pub trait Frame: Copy + Sized {
    /// Digital silence: every channel at rest.
    open spec fn equilibrium_spec() -> Self {
        arbitrary()
    }

    /// The silent frame.
    fn equilibrium() -> (frame: Self)
        ensures
            frame == Self::equilibrium_spec(),
    ;
}

/// The numbers that amplitudes are scaled by and that filter
/// coefficients are computed in. Each operation is a function of its
/// operands alone.
pub trait Scalar: Copy + Sized {
    /// The number one.
    open spec fn one_spec() -> Self {
        arbitrary()
    }

    /// A full turn in radians: two times pi.
    open spec fn tau_spec() -> Self {
        arbitrary()
    }

    /// A whole number of hertz as a scalar.
    open spec fn from_hz_spec(hz: u32) -> Self {
        arbitrary()
    }

    /// A number of frames as a scalar.
    open spec fn from_len_spec(len: usize) -> Self {
        arbitrary()
    }

    open spec fn add_spec(self, rhs: Self) -> Self {
        arbitrary()
    }

    open spec fn mul_spec(self, rhs: Self) -> Self {
        arbitrary()
    }

    open spec fn div_spec(self, rhs: Self) -> Self {
        arbitrary()
    }

    fn one() -> (value: Self)
        ensures
            value == Self::one_spec(),
    ;

    fn tau() -> (value: Self)
        ensures
            value == Self::tau_spec(),
    ;

    fn from_hz(hz: u32) -> (value: Self)
        ensures
            value == Self::from_hz_spec(hz),
    ;

    fn from_len(len: usize) -> (value: Self)
        ensures
            value == Self::from_len_spec(len),
    ;

    fn add(self, rhs: Self) -> (sum: Self)
        ensures
            sum == self.add_spec(rhs),
    ;

    fn mul(self, rhs: Self) -> (product: Self)
        ensures
            product == self.mul_spec(rhs),
    ;

    fn div(self, rhs: Self) -> (quotient: Self)
        ensures
            quotient == self.div_spec(rhs),
    ;
}

/// Arithmetic on the amplitude of a frame, channel by channel. Each
/// operation is a function of its operands alone.
pub trait OpsExt: Frame {
    /// The scalar by which a frame is scaled.
    type Gain: Scalar;

    /// The channel-wise sum.
    open spec fn add_spec(self, rhs: Self) -> Self {
        arbitrary()
    }

    /// The channel-wise difference.
    open spec fn sub_spec(self, rhs: Self) -> Self {
        arbitrary()
    }

    /// The channel-wise product.
    open spec fn mul_spec(self, rhs: Self) -> Self {
        arbitrary()
    }

    /// The channel-wise quotient.
    open spec fn div_spec(self, rhs: Self) -> Self {
        arbitrary()
    }

    /// Every channel multiplied by `rhs`.
    open spec fn scale_spec(self, rhs: Self::Gain) -> Self {
        arbitrary()
    }

    fn add(self, rhs: Self) -> (sum: Self)
        ensures
            sum == self.add_spec(rhs),
    ;

    fn sub(self, rhs: Self) -> (difference: Self)
        ensures
            difference == self.sub_spec(rhs),
    ;

    fn mul(self, rhs: Self) -> (product: Self)
        ensures
            product == self.mul_spec(rhs),
    ;

    fn div(self, rhs: Self) -> (quotient: Self)
        ensures
            quotient == self.div_spec(rhs),
    ;

    fn scale(self, rhs: Self::Gain) -> (scaled: Self)
        ensures
            scaled == self.scale_spec(rhs),
    ;
}

/// A frame of two signed 16-bit samples, as some output devices take it.
/// It rests at zero.
impl Frame for [i16; 2] {
    open spec fn equilibrium_spec() -> Self {
        [0i16, 0i16]
    }

    fn equilibrium() -> (frame: Self) {
        [0i16, 0i16]
    }
}

/// A frame of two unsigned 16-bit samples, as some output devices take
/// it. It rests at the middle of the range.
impl Frame for [u16; 2] {
    open spec fn equilibrium_spec() -> Self {
        [32768u16, 32768u16]
    }

    fn equilibrium() -> (frame: Self) {
        [32768u16, 32768u16]
    }
}

} // verus!
