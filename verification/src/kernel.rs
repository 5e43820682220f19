//! The injected floating-point transform kernel.
//!
//! Everything this crate proves is about structure: which samples enter a
//! window, what the caches hold, which bins are rotated and mirrored, and how
//! state changes across a query.  The scalar arithmetic itself — the discrete
//! Fourier transform, polar conversions, and the handling of real-valued
//! indices and speeds — happens on a scalar type the verifier does not model.
//! The host supplies both through an implementation of [`TransformKernel`]
//! (typically `f32` scalars backed by an FFT library).
//!
//! The trait's methods deliberately carry no contracts: nothing proved here
//! depends on the numeric values a kernel returns, and a kernel is never
//! trusted to be correct — only the surrounding bookkeeping is verified, for
//! every possible kernel behaviour.

use vstd::prelude::*;

verus! {

/// One element of a complex-valued buffer: a plain pair of scalar
/// components.  Windows of samples and their spectra are `Vec<Complex<T>>`.
#[derive(Clone, Copy, Debug)]
pub struct Complex<T> {
    pub re: T,
    pub im: T,
}

/// The scalar and transform operations the interpolator delegates to its
/// host.
///
/// `TReal` is the sample/scalar type (a float in any real host) and `TPlan`
/// is whatever the host's transform library uses to run a transform of one
/// fixed length; both are opaque to the verifier.  Buffers handed to
/// [`forward`](Self::forward) and [`inverse`](Self::inverse) are transformed
/// in place.
pub trait TransformKernel<TReal: Copy, TPlan>: Sized {
    /// The scalar zero, used for padding and for imaginary parts of real
    /// signals.
    fn zero(&self) -> TReal;

    /// The scalar one: the amplitude of the flat spectrum from which the
    /// phase-shift table is measured.
    fn one(&self) -> TReal;

    /// Build a transform plan (forward and inverse operators plus measured
    /// round-trip scale factors) for buffers of length `length`.
    fn make_plan(&self, length: usize) -> TPlan;

    /// Run the forward transform of `plan` over `data`, in place.
    fn forward(&self, plan: &TPlan, data: &mut Vec<Complex<TReal>>);

    /// Run the inverse transform of `plan` over `data`, in place.
    fn inverse(&self, plan: &TPlan, data: &mut Vec<Complex<TReal>>);

    /// The polar-form phase angle of `value`.
    fn phase_of(&self, value: Complex<TReal>) -> TReal;

    /// Rotate `value`'s phase by `phase_shift * frac` and return the rotated
    /// bin together with its complex conjugate, which the caller mirrors
    /// into the matching negative-frequency bin.
    fn rotated_pair(&self, value: Complex<TReal>, phase_shift: TReal, frac: TReal) -> (
        Complex<TReal>,
        Complex<TReal>,
    );

    /// The real part of `value` divided by `plan`'s measured inverse
    /// round-trip scale: the final sample read at a window's centre tap.
    fn center_value(&self, plan: &TPlan, value: Complex<TReal>) -> TReal;

    /// The amplitude of `value` divided by `plan`'s measured forward scale:
    /// the low-pass-filtered sample read from a zero-frequency bin.
    fn dc_value(&self, plan: &TPlan, value: Complex<TReal>) -> TReal;

    /// `Some(index)` as a signed integer when `index` has zero fractional
    /// part (the exact-passthrough case), `None` otherwise.  The sign
    /// matters: a negative whole index lies before the signal and must be
    /// answered with silence, not with some clamped sample.
    fn whole_index(&self, index: TReal) -> Option<i64>;

    /// The integer part of `index` and its fractional remainder.
    fn base_and_frac(&self, index: TReal) -> (i64, TReal);

    /// Whether `speed <= 1`, in which case a query cannot exceed the
    /// signal's own Nyquist limit and no anti-aliasing filter is needed.
    fn at_most_unit_speed(&self, speed: TReal) -> bool;

    /// The smallest integer that is at least `speed`, saturated to `usize`.
    fn speed_ceil(&self, speed: TReal) -> usize;

    /// The position of sub-query `i` of `ratio` for an anti-aliased query at
    /// `index`: the sub-queries are spaced `speed / ratio` apart and span one
    /// output period centred on `index`.
    fn sub_query_index(&self, index: TReal, speed: TReal, ratio: usize, i: usize) -> TReal;
}

/// Cyclically rotate `data` by exactly one element: the head moves to the
/// end and everything else shifts one place forward.  Applied to the
/// time-domain probe during construction, this is the one-sample delay
/// whose per-bin phase the phase-shift table records.
pub fn rotate_head_to_tail<TValue>(data: &mut Vec<TValue>)
    requires
        old(data)@.len() >= 1,
    ensures
        final(data)@.len() == old(data)@.len(),
        final(data)@ == old(data)@.subrange(1, old(data)@.len() as int).push(old(data)@[0]),
{
    let first = data.remove(0);
    data.push(first);
    proof {
        assert(data@ =~= old(data)@.subrange(1, old(data)@.len() as int).push(old(data)@[0]));
    }
}

/// Pin `data` to exactly `length` elements: a prefix of the input as it
/// was, padded with `fill` where the input fell short.
///
/// A kernel's transforms are expected to hand a buffer back at its original
/// length, but a kernel is unverified and nothing here trusts it: after every
/// transform the buffer is pinned, so that each later access is in bounds
/// whatever the kernel did.
pub fn fit_length<TValue: Copy>(data: &mut Vec<TValue>, length: usize, fill: TValue)
    ensures
        final(data)@.len() == length,
        forall|j: int|
            0 <= j < length && j < old(data)@.len() ==> final(data)@[j] == old(data)@[j],
        forall|j: int| old(data)@.len() <= j < length ==> final(data)@[j] == fill,
{
    data.truncate(length);
    while data.len() < length
        invariant
            data@.len() <= length,
            data@.len() >= old(data)@.len() || data@.len() >= length,
            forall|j: int|
                0 <= j < data@.len() && j < old(data)@.len() ==> data@[j] == old(data)@[j],
            forall|j: int| old(data)@.len() <= j < data@.len() ==> data@[j] == fill,
        decreases length - data@.len(),
    {
        data.push(fill);
    }
}

} // verus!
