//! Filters: what turns one frame into another, with a memory of the
//! frames that came before.

use std::collections::VecDeque;
use vstd::prelude::*;

use crate::audioformat::{Frame, OpsExt, Scalar};

verus! {

/// Something that processes audio frame by frame. What comes out
/// depends on the frame that goes in and on what the filter remembers
/// of the frames before.
///
/// What the filter does to a frame is said by `applies`. A filter that
/// leaves `applies` as it is allows every outcome.
pub trait Filter: Sized {
    type Frame: Frame;

    /// Applied to `input`, the filter may put out `output` and be `after`
    /// afterwards.
    open spec fn applies(&self, input: Self::Frame, after: &Self, output: Self::Frame) -> bool {
        true
    }

    /// Applies the filter to a single frame.
    fn apply(&mut self, input: Self::Frame) -> (output: Self::Frame)
        ensures
            old(self).applies(input, final(self), output),
    ;
}

/// Anything that has a cutoff frequency, and can be had again with
/// another one.
pub trait CutoffFreq: Sized {
    type Hz: Scalar;

    /// The cutoff frequency in hertz. The body is one fixed value for
    /// all values of a type: a type with more than one cutoff has to
    /// state its own.
    open spec fn cutoff_spec(&self) -> Self::Hz {
        arbitrary()
    }

    /// The cutoff frequency in hertz.
    fn cutoff_hz(&self) -> (hz: Self::Hz)
        ensures
            hz == self.cutoff_spec(),
    ;

    /// The same with the given cutoff frequency.
    fn with_cutoff_hz(&self, cutoff_hz: Self::Hz) -> (changed: Self)
        ensures
            changed.cutoff_spec() == cutoff_hz,
    ;
}

/// `states` are the states a filter goes through while `inputs` go in
/// one after another and `outputs` come out.
pub open spec fn filter_trace<L: Filter>(states: Seq<L>, inputs: Seq<L::Frame>, outputs: Seq<L::Frame>) -> bool {
    &&& states.len() == inputs.len() + 1
    &&& outputs.len() == inputs.len()
    &&& forall|i: int| 0 <= i < inputs.len() ==> (#[trigger] states[i]).applies(inputs[i], &states[i + 1], outputs[i])
}

/// Passing `inputs` through `before`, in order, may put out `outputs`
/// and leave `after`.
pub open spec fn filtered<L: Filter>(before: L, inputs: Seq<L::Frame>, after: L, outputs: Seq<L::Frame>) -> bool {
    exists|states: Seq<L>|
        filter_trace(states, inputs, outputs) && #[trigger] states[0] == before && states.last() == after
}

/// The angular cutoff per sample: a full turn times the cutoff frequency
/// over the sample rate.
pub open spec fn angular_cutoff<G: Scalar>(cutoff_hz: G, sample_hz: u32) -> G {
    G::tau_spec().mul_spec(cutoff_hz.div_spec(G::from_hz_spec(sample_hz)))
}

/// The smoothing factor of the lowpass: `x / (x + 1)` for the angular
/// cutoff `x`.
pub open spec fn lowpass_alpha<G: Scalar>(cutoff_hz: G, sample_hz: u32) -> G {
    let x = angular_cutoff(cutoff_hz, sample_hz);
    x.div_spec(x.add_spec(G::one_spec()))
}

/// The smoothing factor of the highpass: `1 / (1 + x)` for the angular
/// cutoff `x`.
pub open spec fn highpass_alpha<G: Scalar>(cutoff_hz: G, sample_hz: u32) -> G {
    let x = angular_cutoff(cutoff_hz, sample_hz);
    G::one_spec().div_spec(G::one_spec().add_spec(x))
}

fn angular<G: Scalar>(cutoff_hz: G, sample_hz: u32) -> (x: G)
    ensures
        x == angular_cutoff(cutoff_hz, sample_hz),
{
    G::tau().mul(cutoff_hz.div(G::from_hz(sample_hz)))
}

/// A simple infinite impulse response lowpass filter:
/// `y[i] = y[i - 1] + alpha * (x[i] - y[i - 1])`.
pub struct IIRLowpassFilter<F: OpsExt> {
    last_output: F,
    alpha: F::Gain,
    cutoff_hz: F::Gain,
    sample_hz: u32,
}

impl<F: OpsExt> IIRLowpassFilter<F> {
    /// The output of the last frame.
    pub closed spec fn last_output(&self) -> F {
        self.last_output
    }

    /// The smoothing factor.
    pub closed spec fn alpha(&self) -> F::Gain {
        self.alpha
    }

    /// The sample rate the filter was made for.
    pub closed spec fn sample_rate(&self) -> u32 {
        self.sample_hz
    }

    /// A filter that starts from silence.
    pub fn from_cutoff_hz(cutoff_hz: F::Gain, sample_hz: u32) -> (filter: IIRLowpassFilter<F>)
        ensures
            filter.last_output() == F::equilibrium_spec(),
            filter.alpha() == lowpass_alpha(cutoff_hz, sample_hz),
            filter.cutoff_spec() == cutoff_hz,
            filter.sample_rate() == sample_hz,
    {
        IIRLowpassFilter::new(F::equilibrium(), cutoff_hz, sample_hz)
    }

    /// A filter that carries on from the given last output.
    pub fn new(last_output: F, cutoff_hz: F::Gain, sample_hz: u32) -> (filter: IIRLowpassFilter<F>)
        ensures
            filter.last_output() == last_output,
            filter.alpha() == lowpass_alpha(cutoff_hz, sample_hz),
            filter.cutoff_spec() == cutoff_hz,
            filter.sample_rate() == sample_hz,
    {
        let x = angular(cutoff_hz, sample_hz);
        IIRLowpassFilter { last_output, alpha: x.div(x.add(F::Gain::one())), cutoff_hz, sample_hz }
    }
}

impl<F: OpsExt> CutoffFreq for IIRLowpassFilter<F> {
    type Hz = F::Gain;

    closed spec fn cutoff_spec(&self) -> F::Gain {
        self.cutoff_hz
    }

    fn cutoff_hz(&self) -> (hz: F::Gain) {
        self.cutoff_hz
    }

    /// The filter with another cutoff. It keeps what it remembers, so
    /// that the change is not heard as a jump.
    fn with_cutoff_hz(&self, cutoff_hz: F::Gain) -> (changed: IIRLowpassFilter<F>)
        ensures
            changed.last_output() == self.last_output(),
            changed.alpha() == lowpass_alpha(cutoff_hz, self.sample_rate()),
            changed.sample_rate() == self.sample_rate(),
    {
        IIRLowpassFilter::new(self.last_output, cutoff_hz, self.sample_hz)
    }
}

impl<F: OpsExt> Filter for IIRLowpassFilter<F> {
    type Frame = F;

    open spec fn applies(&self, input: F, after: &Self, output: F) -> bool {
        &&& output == self.last_output().add_spec(input.sub_spec(self.last_output()).scale_spec(self.alpha()))
        &&& after.last_output() == output
        &&& after.alpha() == self.alpha()
        &&& after.cutoff_spec() == self.cutoff_spec()
        &&& after.sample_rate() == self.sample_rate()
    }

    fn apply(&mut self, input: F) -> (output: F) {
        let output = self.last_output.add(input.sub(self.last_output).scale(self.alpha));
        self.last_output = output;
        output
    }
}

/// A simple infinite impulse response highpass filter:
/// `y[i] = alpha * (y[i - 1] + x[i] - x[i - 1])`.
pub struct IIRHighpassFilter<F: OpsExt> {
    last_input: F,
    last_output: F,
    alpha: F::Gain,
    cutoff_hz: F::Gain,
    sample_hz: u32,
}

impl<F: OpsExt> IIRHighpassFilter<F> {
    /// The input of the last frame.
    pub closed spec fn last_input(&self) -> F {
        self.last_input
    }

    /// The output of the last frame.
    pub closed spec fn last_output(&self) -> F {
        self.last_output
    }

    /// The smoothing factor.
    pub closed spec fn alpha(&self) -> F::Gain {
        self.alpha
    }

    /// The sample rate the filter was made for.
    pub closed spec fn sample_rate(&self) -> u32 {
        self.sample_hz
    }

    /// A filter that starts from silence.
    pub fn from_cutoff_hz(cutoff_hz: F::Gain, sample_hz: u32) -> (filter: IIRHighpassFilter<F>)
        ensures
            filter.last_input() == F::equilibrium_spec(),
            filter.last_output() == F::equilibrium_spec(),
            filter.alpha() == highpass_alpha(cutoff_hz, sample_hz),
            filter.cutoff_spec() == cutoff_hz,
            filter.sample_rate() == sample_hz,
    {
        IIRHighpassFilter::new(F::equilibrium(), F::equilibrium(), cutoff_hz, sample_hz)
    }

    /// A filter that carries on from the given last input and output.
    pub fn new(last_input: F, last_output: F, cutoff_hz: F::Gain, sample_hz: u32) -> (filter: IIRHighpassFilter<F>)
        ensures
            filter.last_input() == last_input,
            filter.last_output() == last_output,
            filter.alpha() == highpass_alpha(cutoff_hz, sample_hz),
            filter.cutoff_spec() == cutoff_hz,
            filter.sample_rate() == sample_hz,
    {
        let x = angular(cutoff_hz, sample_hz);
        IIRHighpassFilter {
            last_input,
            last_output,
            alpha: F::Gain::one().div(F::Gain::one().add(x)),
            cutoff_hz,
            sample_hz,
        }
    }
}

impl<F: OpsExt> CutoffFreq for IIRHighpassFilter<F> {
    type Hz = F::Gain;

    closed spec fn cutoff_spec(&self) -> F::Gain {
        self.cutoff_hz
    }

    fn cutoff_hz(&self) -> (hz: F::Gain) {
        self.cutoff_hz
    }

    /// The filter with another cutoff. It keeps what it remembers, so
    /// that the change is not heard as a jump.
    fn with_cutoff_hz(&self, cutoff_hz: F::Gain) -> (changed: IIRHighpassFilter<F>)
        ensures
            changed.last_input() == self.last_input(),
            changed.last_output() == self.last_output(),
            changed.alpha() == highpass_alpha(cutoff_hz, self.sample_rate()),
            changed.sample_rate() == self.sample_rate(),
    {
        IIRHighpassFilter::new(self.last_input, self.last_output, cutoff_hz, self.sample_hz)
    }
}

impl<F: OpsExt> Filter for IIRHighpassFilter<F> {
    type Frame = F;

    open spec fn applies(&self, input: F, after: &Self, output: F) -> bool {
        &&& output == self.last_output().add_spec(input).sub_spec(self.last_input()).scale_spec(self.alpha())
        &&& after.last_input() == input
        &&& after.last_output() == output
        &&& after.alpha() == self.alpha()
        &&& after.cutoff_spec() == self.cutoff_spec()
        &&& after.sample_rate() == self.sample_rate()
    }

    fn apply(&mut self, input: F) -> (output: F) {
        let output = self.last_output.add(input).sub(self.last_input).scale(self.alpha);
        self.last_input = input;
        self.last_output = output;
        output
    }
}

/// The sum of the frames of a window, added up from the oldest on,
/// starting from silence.
pub open spec fn total<F: OpsExt>(window: Seq<F>) -> F
    decreases window.len(),
{
    if window.len() == 0 {
        F::equilibrium_spec()
    } else {
        total(window.drop_last()).add_spec(window.last())
    }
}

/// The window after `input` came in: the last `length` frames of what
/// the window held and the input behind it. The oldest frames leave as
/// far as they have to; a window of length zero stays empty.
pub open spec fn slid<F>(window: Seq<F>, length: usize, input: F) -> Seq<F> {
    let grown = window.push(input);
    if grown.len() > length {
        grown.skip(grown.len() - length)
    } else {
        grown
    }
}

/// A filter that averages over the last frames: the sum of the window
/// over the window's length. A very simple finite impulse response
/// filter and a kind of lowpass; for control over the cutoff frequency
/// there are the infinite impulse response filters.
pub struct MovingAverageFilter<F> {
    last: VecDeque<F>,
    length: usize,
}

impl<F: OpsExt> MovingAverageFilter<F> {
    /// The frames the filter remembers, oldest first.
    pub closed spec fn window(&self) -> Seq<F> {
        self.last@
    }

    /// The length of the window.
    pub closed spec fn length(&self) -> usize {
        self.length
    }

    /// A filter with a window of `length` frames, which starts out
    /// empty.
    pub fn new(length: usize) -> (filter: MovingAverageFilter<F>)
        ensures
            filter.window() == Seq::<F>::empty(),
            filter.length() == length,
    {
        MovingAverageFilter { last: VecDeque::with_capacity(length), length }
    }

    fn sum(&self) -> (sum: F)
        ensures
            sum == total(self.window()),
    {
        let mut sum = F::equilibrium();
        let mut i: usize = 0;
        assert(self.last@.take(0) =~= Seq::<F>::empty());
        while i < self.last.len()
            invariant
                i <= self.last@.len(),
                sum == total(self.last@.take(i as int)),
            decreases self.last@.len() - i,
        {
            proof {
                let now = self.last@.take(i + 1);
                assert(now.drop_last() =~= self.last@.take(i as int));
                assert(now.last() == self.last@[i as int]);
            }
            sum = sum.add(self.last[i]);
            i += 1;
        }
        assert(self.last@.take(self.last@.len() as int) =~= self.last@);
        sum
    }
}

impl<F: OpsExt> Filter for MovingAverageFilter<F> {
    type Frame = F;

    open spec fn applies(&self, input: F, after: &Self, output: F) -> bool {
        &&& after.length() == self.length()
        &&& after.window() == slid(self.window(), self.length(), input)
        &&& output
            == total(after.window()).scale_spec(F::Gain::one_spec().div_spec(F::Gain::from_len_spec(self.length())))
    }

    fn apply(&mut self, input: F) -> (output: F) {
        let ghost before = self.last@;
        while self.last.len() > 0 && self.last.len() >= self.length
            invariant
                self.length == old(self).length,
                self.last@.len() <= before.len(),
                self.last@ == before.skip(before.len() - self.last@.len()),
                self.last@.len() == before.len() || self.last@.len() + 1 >= self.length,
            decreases self.last@.len(),
        {
            let ghost held = self.last@;
            let oldest = self.last.pop_front();
            assert(self.last@ =~= before.skip(before.len() - held.len() + 1));
        }
        if self.length > 0 {
            self.last.push_back(input);
        }
        assert(self.last@ =~= slid(before, self.length, input));
        let sum = self.sum();
        sum.scale(F::Gain::one().div(F::Gain::from_len(self.length)))
    }
}

/// A filter that can be switched off. Switched off it lets the input
/// through as it is, but the wrapped filter still sees every frame, so
/// that its memory is up to date when it is switched on again.
pub struct Disableable<L> {
    pub wrapped: L,
    pub disabled: bool,
}

impl<L> Disableable<L> {
    pub fn new(wrapped: L, disabled: bool) -> (filter: Disableable<L>)
        ensures
            filter.wrapped == wrapped,
            filter.disabled == disabled,
    {
        Disableable { wrapped, disabled }
    }

    /// Wraps the filter, switched on.
    pub fn enabled(wrapped: L) -> (filter: Disableable<L>)
        ensures
            filter.wrapped == wrapped,
            !filter.disabled,
    {
        Disableable { wrapped, disabled: false }
    }

    /// Wraps the filter, switched off.
    pub fn disabled(wrapped: L) -> (filter: Disableable<L>)
        ensures
            filter.wrapped == wrapped,
            filter.disabled,
    {
        Disableable { wrapped, disabled: true }
    }

    /// The same switch around another inner value.
    pub fn with<E>(&self, wrapped: E) -> (filter: Disableable<E>)
        ensures
            filter.wrapped == wrapped,
            filter.disabled == self.disabled,
    {
        Disableable { wrapped, disabled: self.disabled }
    }
}

/// What a switchable filter puts out: the input if it is switched off,
/// else what the filter inside put out.
pub open spec fn let_through<F>(disabled: bool, input: F, inner: F) -> F {
    if disabled {
        input
    } else {
        inner
    }
}

impl<L: Filter> Filter for Disableable<L> {
    type Frame = L::Frame;

    open spec fn applies(&self, input: L::Frame, after: &Self, output: L::Frame) -> bool {
        &&& after.disabled == self.disabled
        &&& exists|inner: L::Frame|
            self.wrapped.applies(input, &after.wrapped, inner) && output == #[trigger] let_through(self.disabled, input, inner)
    }

    fn apply(&mut self, input: L::Frame) -> (output: L::Frame) {
        let inner = self.wrapped.apply(input);
        let output = if self.disabled {
            input
        } else {
            inner
        };
        assert(output == let_through(self.disabled, input, inner));
        output
    }
}

/// A run of a switchable filter whose switch is set anew for each frame:
/// `wrapped` are the states of the filter inside, `disabled[i]` says
/// whether the switch is off when `inputs[i]` arrives, and `outputs` is
/// what comes out.
pub open spec fn switched<L: Filter>(
    wrapped: Seq<L>,
    inputs: Seq<L::Frame>,
    disabled: Seq<bool>,
    outputs: Seq<L::Frame>,
) -> bool {
    &&& wrapped.len() == inputs.len() + 1
    &&& disabled.len() == inputs.len()
    &&& outputs.len() == inputs.len()
    &&& forall|i: int|
        0 <= i < inputs.len() ==> (Disableable { wrapped: #[trigger] wrapped[i], disabled: disabled[i] }).applies(
        inputs[i],
        &Disableable { wrapped: wrapped[i + 1], disabled: disabled[i] },
        outputs[i],
    )
}

/// The frame the filter inside put out at a step of a switched run.
pub open spec fn inner_output<L: Filter>(
    before: L,
    input: L::Frame,
    after: L,
    disabled: bool,
    output: L::Frame,
) -> L::Frame {
    choose|inner: L::Frame|
        before.applies(input, &after, inner) && output == #[trigger] let_through(disabled, input, inner)
}

/// Re-enabling is seamless. However the switch is flipped along the
/// way, the filter inside goes through a run of its own on the same
/// inputs, as if it had never been switched off: whenever the switch is
/// on, what comes out is what the filter inside puts out in that run,
/// and whenever it is off, what comes out is the input.
pub proof fn lemma_switching_keeps_memory<L: Filter>(
    wrapped: Seq<L>,
    inputs: Seq<L::Frame>,
    disabled: Seq<bool>,
    outputs: Seq<L::Frame>,
)
    requires
        switched(wrapped, inputs, disabled, outputs),
    ensures
        (exists|inner: Seq<L::Frame>|
            {
                &&& #[trigger] filter_trace(wrapped, inputs, inner)
                &&& forall|i: int|
                    0 <= i < inputs.len() ==> #[trigger] outputs[i] == let_through(disabled[i], inputs[i], inner[i])
            }),
{
    let inner = Seq::new(inputs.len(), |i: int| inner_output(wrapped[i], inputs[i], wrapped[i + 1], disabled[i], outputs[i]));
    assert forall|i: int| 0 <= i < inputs.len() implies (#[trigger] wrapped[i]).applies(inputs[i], &wrapped[i + 1], inner[i]) && outputs[i] == let_through(
        disabled[i],
        inputs[i],
        inner[i],
    ) by {
        let before = Disableable { wrapped: wrapped[i], disabled: disabled[i] };
        let after = Disableable { wrapped: wrapped[i + 1], disabled: disabled[i] };
        assert(before.applies(inputs[i], &after, outputs[i]));
        let witness = choose|witness: L::Frame|
            before.wrapped.applies(inputs[i], &after.wrapped, witness) && outputs[i] == #[trigger] let_through(before.disabled, inputs[i], witness);
        assert(wrapped[i].applies(inputs[i], &wrapped[i + 1], witness) && outputs[i] == let_through(disabled[i], inputs[i], witness));
    }
    assert(filter_trace(wrapped, inputs, inner));
}

/// The other way round: a run of the filter inside is a run of the
/// switchable filter for every setting of the switch.
pub proof fn lemma_switching_follows_inner<L: Filter>(
    wrapped: Seq<L>,
    inputs: Seq<L::Frame>,
    disabled: Seq<bool>,
    inner: Seq<L::Frame>,
)
    requires
        filter_trace(wrapped, inputs, inner),
        disabled.len() == inputs.len(),
    ensures
        switched(wrapped, inputs, disabled, Seq::new(inputs.len(), |i: int| let_through(disabled[i], inputs[i], inner[i]))),
{
    let outputs = Seq::new(inputs.len(), |i: int| let_through(disabled[i], inputs[i], inner[i]));
    assert forall|i: int| 0 <= i < inputs.len() implies (Disableable { wrapped: #[trigger] wrapped[i], disabled: disabled[i] }).applies(
        inputs[i],
        &Disableable { wrapped: wrapped[i + 1], disabled: disabled[i] },
        outputs[i],
    ) by {
        assert(wrapped[i].applies(inputs[i], &wrapped[i + 1], inner[i]));
        assert(outputs[i] == let_through(disabled[i], inputs[i], inner[i]));
    }
}

} // verus!
