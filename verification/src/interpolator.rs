//! The interpolation engine.
//!
//! [`Interpolator`] answers one synchronous question per call: what is the
//! value of this channel at this real-valued index?  A query with zero
//! fractional part is passed straight through to the sample provider.  A
//! fractional query windows the samples around the query's integer base
//! (zero-padded outside the signal), rotates every frequency bin of the
//! window's forward transform in proportion to the fractional offset, and
//! reads the centre tap of the inverse transform.  A query that advances
//! faster than one sample per step is oversampled at several sub-positions
//! and decimated through the zero-frequency bin of their transform.

use core::marker::PhantomData;

use vstd::laws_eq::obeys_eq_spec_properties;
use vstd::prelude::*;
use vstd::std_specs::cmp::PartialEqSpec;

use crate::cache::{copy_values, lawful_eq, ChannelCache};
use crate::kernel::{fit_length, rotate_head_to_tail, Complex, TransformKernel};
use crate::ratio::oversampling_ratio;
use crate::registry::PlanRegistry;

verus! {

/// The spectral interpolation engine for one signal.
///
/// It owns the sample provider (a function value from channel and index to a
/// sample or a provider-defined error), the transform kernel, the phase-shift
/// table measured at construction, the registry of transform plans, and the
/// per-channel transform cache.  One query mutates cache state at a time, so
/// queries take the interpolator exclusively.
#[verifier::reject_recursive_types(TChannelId)]
#[verifier::reject_recursive_types(TError)]
#[verifier::reject_recursive_types(TReal)]
pub struct Interpolator<TSampleProvider, TChannelId, TError, TReal, TPlan, TKernel> where
    TSampleProvider: Fn(TChannelId, usize) -> Result<TReal, TError>,
    TChannelId: Copy + PartialEq,
    TReal: Copy,
    TKernel: TransformKernel<TReal, TPlan>,
{
    sample_provider: TSampleProvider,
    kernel: TKernel,
    window_size: usize,
    num_samples: usize,
    zero_value: TReal,
    phase_shifts_per_sample: Vec<TReal>,
    plan_registry: PlanRegistry<TPlan>,
    transform_cache: ChannelCache<TChannelId, Complex<TReal>>,
    _error: PhantomData<TError>,
}

impl<TSampleProvider, TChannelId, TError, TReal, TPlan, TKernel> Interpolator<
    TSampleProvider,
    TChannelId,
    TError,
    TReal,
    TPlan,
    TKernel,
> where
    TSampleProvider: Fn(TChannelId, usize) -> Result<TReal, TError>,
    TChannelId: Copy + PartialEq,
    TReal: Copy,
    TKernel: TransformKernel<TReal, TPlan>,
 {
    /// The sample provider this interpolator queries.
    pub closed spec fn provider(&self) -> TSampleProvider {
        self.sample_provider
    }

    /// The injected transform kernel.
    pub closed spec fn spec_kernel(&self) -> TKernel {
        self.kernel
    }

    /// The number of samples folded into one transform window.
    pub closed spec fn spec_window_size(&self) -> usize {
        self.window_size
    }

    /// The total addressable length of the signal; indices outside
    /// `[0, spec_num_samples())` are treated as silence.
    pub closed spec fn spec_num_samples(&self) -> usize {
        self.num_samples
    }

    /// The kernel's scalar zero, captured at construction.
    pub closed spec fn spec_zero(&self) -> TReal {
        self.zero_value
    }

    /// The phase-shift table: entry `k` is the phase rotation at bin `k`
    /// equivalent to shifting the time-domain window by one sample.
    pub closed spec fn phase_table(&self) -> Seq<TReal> {
        self.phase_shifts_per_sample@
    }

    /// The cached transform of `channel_id`: the integer base index it was
    /// computed for and the forward spectrum of the window centred there.
    pub closed spec fn cache_entry(&self, channel_id: TChannelId) -> Option<
        (i64, Seq<Complex<TReal>>),
    > {
        self.transform_cache.entry_for(channel_id)
    }

    /// Whether a transform plan for `length` has been memoized.
    pub closed spec fn has_plan(&self, length: usize) -> bool {
        self.plan_registry.has_plan(length)
    }

    /// The interpolator's structural invariant: an even window of at least
    /// two samples, a non-empty signal, a phase-shift table covering bins
    /// `0 ..= window_size / 2`, cached spectra exactly one window wide, a
    /// memoized plan for the primary window length, and a provider witness
    /// behind every cached spectrum.
    pub closed spec fn wf(&self) -> bool {
        &&& self.window_size >= 2
        &&& self.window_size % 2 == 0
        &&& self.num_samples >= 1
        &&& self.phase_shifts_per_sample@.len() == self.window_size / 2 + 1
        &&& self.transform_cache.wf()
        &&& self.transform_cache.spec_width() == self.window_size
        &&& self.plan_registry.has_plan(self.window_size)
        &&& self.cached_entries_witnessed()
    }

    /// The provider accepts a query for every channel and every index inside
    /// the signal; it signals trouble by returning its error, never by being
    /// uncallable.  The interpolator never queries an index it has
    /// determined to be out of range, so nothing more is asked of it.
    pub open spec fn accepts_in_range_queries(&self) -> bool {
        forall|channel_id: TChannelId, index: usize|
            index < self.spec_num_samples() ==> #[trigger] call_requires(
                self.provider(),
                (channel_id, index),
            )
    }

    /// Everything a query never changes: the provider, the kernel, the
    /// window geometry, and the phase-shift table.
    pub open spec fn same_setup(pre: &Self, post: &Self) -> bool {
        &&& post.provider() == pre.provider()
        &&& post.spec_kernel() == pre.spec_kernel()
        &&& post.spec_window_size() == pre.spec_window_size()
        &&& post.spec_num_samples() == pre.spec_num_samples()
        &&& post.spec_zero() == pre.spec_zero()
        &&& post.phase_table() == pre.phase_table()
    }

    /// The signal position that slot `j` of a window based at `base` reads:
    /// the window spans `[base - window_size/2, base + window_size/2)`.
    pub open spec fn window_position(&self, base: i64, j: int) -> int {
        base + j - (self.spec_window_size() / 2) as int
    }

    /// Whether slot `j` of a window based at `base` falls inside the signal.
    pub open spec fn position_in_signal(&self, base: i64, j: int) -> bool {
        0 <= self.window_position(base, j) < self.spec_num_samples()
    }

    /// What slot `j` of an assembled window holds: a sample the provider
    /// returned for the slot's position (as a complex value with zero
    /// imaginary part), or pure silence for positions outside the signal.
    pub open spec fn window_slot_matches(
        &self,
        channel_id: TChannelId,
        base: i64,
        j: int,
        slot: Complex<TReal>,
    ) -> bool {
        if self.position_in_signal(base, j) {
            &&& slot.im == self.spec_zero()
            &&& call_ensures(
                self.provider(),
                (channel_id, self.window_position(base, j) as usize),
                Ok(slot.re),
            )
        } else {
            slot == (Complex { re: self.spec_zero(), im: self.spec_zero() })
        }
    }

    /// `error` is something the provider can answer a query on `channel_id`
    /// with: every error a query returns originated in the provider.
    pub open spec fn provider_error(&self, channel_id: TChannelId, error: TError) -> bool {
        exists|index: usize| call_ensures(self.provider(), (channel_id, index), Err(error))
    }

    /// `window` is a complete, provider-consistent window for `channel_id`
    /// at `base`: one window long, with every slot as
    /// [`window_slot_matches`](Self::window_slot_matches) demands.  Where
    /// the provider can only fail for some in-signal window position, no
    /// such window exists
    /// ([`lemma_window_slot_witnesses_success`](Self::lemma_window_slot_witnesses_success)),
    /// so nothing that requires one can succeed.
    pub open spec fn provider_window(
        &self,
        channel_id: TChannelId,
        base: i64,
        window: Seq<Complex<TReal>>,
    ) -> bool {
        &&& window.len() == self.spec_window_size()
        &&& forall|j: int|
            0 <= j < window.len() ==> self.window_slot_matches(
                channel_id,
                base,
                j,
                #[trigger] window[j],
            )
    }

    /// Every cached spectrum is backed by a provider-consistent window: an
    /// entry for `channel_id` at base `b` exists only if some complete
    /// window at `b` was successfully fetched for an identifier equal to
    /// `channel_id`.  This ties every answer served from the cache back to
    /// the provider.
    pub open spec fn cached_entries_witnessed(&self) -> bool {
        forall|channel_id: TChannelId|
            (#[trigger] self.cache_entry(channel_id)) is Some
                ==> exists|witness_channel: TChannelId, window: Seq<Complex<TReal>>|
                {
                    &&& witness_channel.eq_spec(&channel_id)
                    &&& #[trigger] self.provider_window(
                        witness_channel,
                        self.cache_entry(channel_id)->Some_0.0,
                        window,
                    )
                }
    }

    /// A provider-consistent window stays one across any change that keeps
    /// the setup (provider, geometry, zero) — only the caches may differ.
    pub proof fn lemma_provider_window_same_setup(
        pre: &Self,
        post: &Self,
        channel_id: TChannelId,
        base: i64,
        window: Seq<Complex<TReal>>,
    )
        requires
            Self::same_setup(pre, post),
            pre.provider_window(channel_id, base, window),
        ensures
            post.provider_window(channel_id, base, window),
    {
        assert forall|j: int|
            0 <= j < window.len() implies post.window_slot_matches(
            channel_id,
            base,
            j,
            #[trigger] window[j],
        ) by {
            assert(pre.window_slot_matches(channel_id, base, j, window[j]));
        }
    }

    /// Error propagation, seen from the success side: every in-signal slot
    /// of a successfully assembled window witnesses a successful provider
    /// response for exactly its position.  A position where the provider
    /// can only fail therefore precludes any successful window — the
    /// failure always surfaces — and by
    /// [`assemble_window`](Self::assemble_window)'s contract the surfacing
    /// error is one of the provider's own, propagated unchanged.
    pub proof fn lemma_window_slot_witnesses_success(
        &self,
        channel_id: TChannelId,
        base: i64,
        window: Seq<Complex<TReal>>,
        j: int,
    )
        requires
            self.provider_window(channel_id, base, window),
            0 <= j < window.len(),
            self.position_in_signal(base, j),
        ensures
            exists|sample: TReal|
                call_ensures(
                    self.provider(),
                    (channel_id, self.window_position(base, j) as usize),
                    Ok::<TReal, TError>(sample),
                ),
    {
        assert(self.window_slot_matches(channel_id, base, j, window[j]));
        assert(call_ensures(
            self.provider(),
            (channel_id, self.window_position(base, j) as usize),
            Ok::<TReal, TError>(window[j].re),
        ));
    }

    /// The probe from which the phase-shift table is measured: a
    /// unit-amplitude, zero-phase spectrum with the zero-frequency bin
    /// silenced.  Every slot is pinned, so what stands between the kernel's
    /// transform calls during construction is fixed by contract.
    fn flat_unit_spectrum(length: usize, unit_value: TReal, zero_value: TReal) -> (spectrum: Vec<
        Complex<TReal>,
    >)
        ensures
            spectrum@.len() == length,
            length > 0 ==> spectrum@[0] == (Complex { re: zero_value, im: zero_value }),
            forall|j: int|
                1 <= j < length ==> spectrum@[j] == (Complex { re: unit_value, im: zero_value }),
    {
        let mut spectrum: Vec<Complex<TReal>> = Vec::new();
        let mut j: usize = 0;
        while j < length
            invariant
                spectrum@.len() == j,
                j <= length,
                j > 0 ==> spectrum@[0] == (Complex { re: zero_value, im: zero_value }),
                forall|m: int|
                    1 <= m < j ==> spectrum@[m] == (Complex { re: unit_value, im: zero_value }),
            decreases length - j,
        {
            if j == 0 {
                spectrum.push(Complex { re: zero_value, im: zero_value });
            } else {
                spectrum.push(Complex { re: unit_value, im: zero_value });
            }
            j = j + 1;
        }
        spectrum
    }

    /// Build an interpolator: plan the primary window length and measure the
    /// phase-shift table by transforming a flat spectrum to the time domain,
    /// rotating it by exactly one sample, transforming back, and reading
    /// each bin's phase.  Deriving the table from the kernel's own output
    /// absorbs whatever scale and ordering conventions the kernel uses.
    pub fn new(
        window_size: usize,
        num_samples: usize,
        sample_provider: TSampleProvider,
        kernel: TKernel,
    ) -> (interpolator: Self)
        requires
            window_size >= 2,
            window_size % 2 == 0,
            num_samples >= 1,
        ensures
            interpolator.wf(),
            interpolator.spec_window_size() == window_size,
            interpolator.spec_num_samples() == num_samples,
            interpolator.provider() == sample_provider,
            interpolator.spec_kernel() == kernel,
            interpolator.has_plan(window_size),
            interpolator.phase_table().len() == window_size / 2 + 1,
            forall|channel_id: TChannelId| #[trigger] interpolator.cache_entry(channel_id)
                is None,
    {
        let zero_value = kernel.zero();
        let unit_value = kernel.one();
        let plan = kernel.make_plan(window_size);

        // A unit-amplitude, zero-phase spectrum with the zero-frequency bin
        // silenced, taken to the time domain ...
        let mut phase_transform = Self::flat_unit_spectrum(window_size, unit_value, zero_value);
        kernel.inverse(&plan, &mut phase_transform);
        fit_length(&mut phase_transform, window_size, Complex { re: zero_value, im: zero_value });

        // ... cyclically rotated by exactly one sample, ...
        rotate_head_to_tail(&mut phase_transform);

        // ... and taken back to the frequency domain: each bin's phase is
        // now the rotation equivalent to one sample of delay.
        kernel.forward(&plan, &mut phase_transform);
        fit_length(&mut phase_transform, window_size, Complex { re: zero_value, im: zero_value });

        let half = window_size / 2;
        let mut phase_shifts_per_sample: Vec<TReal> = Vec::new();
        let mut k: usize = 0;
        while k < half + 1
            invariant
                phase_shifts_per_sample@.len() == k,
                k <= half + 1,
                half == window_size / 2,
                window_size >= 2,
                phase_transform@.len() == window_size,
            decreases half + 1 - k,
        {
            phase_shifts_per_sample.push(kernel.phase_of(phase_transform[k]));
            k = k + 1;
        }

        let mut plan_registry = PlanRegistry::new();
        plan_registry.insert(window_size, plan);
        let transform_cache = ChannelCache::new(window_size);

        Interpolator {
            sample_provider,
            kernel,
            window_size,
            num_samples,
            zero_value,
            phase_shifts_per_sample,
            plan_registry,
            transform_cache,
            _error: PhantomData,
        }
    }

    /// Answer a query at a whole index: inside the signal, the provider's
    /// sample exactly as the provider returns it — no transform, no cache,
    /// no floating-point drift; outside the signal, silence, and the
    /// provider is never consulted for an index the interpolator has
    /// determined to be out of range.
    pub fn passthrough_sample(&self, channel_id: TChannelId, index: i64) -> (result: Result<
        TReal,
        TError,
    >)
        requires
            self.accepts_in_range_queries(),
        ensures
            0 <= index < self.spec_num_samples() ==> call_ensures(
                self.provider(),
                (channel_id, index as usize),
                result,
            ),
            !(0 <= index < self.spec_num_samples()) ==> result == Ok::<TReal, TError>(
                self.spec_zero(),
            ),
    {
        if index >= 0 && (index as u64) < (self.num_samples as u64) {
            proof {
                assert(call_requires(self.provider(), (channel_id, index as usize)));
            }
            (self.sample_provider)(channel_id, index as usize)
        } else {
            Ok(self.zero_value)
        }
    }

    /// Assemble the window of `window_size` samples centred on `base`:
    /// slot `j` reads the signal at `base - window_size/2 + j`, and every
    /// position outside `[0, num_samples)` contributes silence instead of a
    /// provider query (zero padding, a deliberate simplification near the
    /// stream edges).  The first provider failure aborts the whole assembly
    /// and is returned unchanged.
    pub fn assemble_window(&self, channel_id: TChannelId, base: i64) -> (result: Result<
        Vec<Complex<TReal>>,
        TError,
    >)
        requires
            self.wf(),
            self.accepts_in_range_queries(),
        ensures
            result matches Ok(window) ==> self.provider_window(channel_id, base, window@),
            result matches Err(error) ==> self.provider_error(channel_id, error),
    {
        let half = self.window_size / 2;
        let mut window: Vec<Complex<TReal>> = Vec::new();
        let mut j: usize = 0;
        #[verifier::loop_isolation(false)]
        while j < self.window_size
            invariant
                window@.len() == j,
                j <= self.window_size,
                forall|m: int|
                    0 <= m < j ==> self.window_slot_matches(
                        channel_id,
                        base,
                        m,
                        #[trigger] window@[m],
                    ),
            decreases self.window_size - j,
        {
            let position: i128 = base as i128 + j as i128 - half as i128;
            let slot: Complex<TReal>;
            if position >= 0 && position < self.num_samples as i128 {
                proof {
                    assert(call_requires(self.provider(), (channel_id, position as usize)));
                }
                let sample = match (self.sample_provider)(channel_id, position as usize) {
                    Ok(sample) => sample,
                    Err(error) => {
                        proof {
                            assert(call_ensures(
                                self.provider(),
                                (channel_id, position as usize),
                                Err::<TReal, TError>(error),
                            ));
                        }
                        return Err(error);
                    },
                };
                slot = Complex { re: sample, im: self.zero_value };
            } else {
                slot = Complex { re: self.zero_value, im: self.zero_value };
            }
            window.push(slot);
            j = j + 1;
        }
        Ok(window)
    }

    /// Compute the forward transform of `channel_id`'s window at `base` and
    /// record it in the per-channel cache, superseding that channel's
    /// previous entry and touching no other channel.  On a provider failure
    /// nothing at all is changed: the cache is only updated by a fully
    /// successful window fetch.
    pub fn compute_transform(&mut self, channel_id: TChannelId, base: i64) -> (result: Result<
        Vec<Complex<TReal>>,
        TError,
    >)
        requires
            old(self).wf(),
            lawful_eq::<TChannelId>(),
            old(self).accepts_in_range_queries(),
        ensures
            final(self).wf(),
            Self::same_setup(old(self), final(self)),
            forall|length: usize| old(self).has_plan(length) ==> #[trigger] final(self).has_plan(
                length,
            ),
            forall|other: TChannelId|
                !other.eq_spec(&channel_id) ==> #[trigger] final(self).cache_entry(other) == old(
                    self,
                ).cache_entry(other),
            result matches Ok(transform) ==> {
                &&& transform@.len() == old(self).spec_window_size()
                &&& final(self).cache_entry(channel_id) == Some((base, transform@))
                &&& exists|window: Seq<Complex<TReal>>| #[trigger] old(self).provider_window(
                    channel_id,
                    base,
                    window,
                )
            },
            result matches Err(error) ==> {
                &&& *final(self) == *old(self)
                &&& old(self).provider_error(channel_id, error)
            },
    {
        let mut transform = match self.assemble_window(channel_id, base) {
            Ok(window) => window,
            Err(error) => {
                return Err(error);
            },
        };
        let ghost assembled = transform@;

        let plan = self.plan_registry.get_expect(self.window_size);
        self.kernel.forward(plan, &mut transform);
        let fill = Complex { re: self.zero_value, im: self.zero_value };
        fit_length(&mut transform, self.window_size, fill);

        let stored = copy_values(&transform);
        self.transform_cache.store(channel_id, base, stored);
        proof {
            reveal(obeys_eq_spec_properties);
            assert(old(self).provider_window(channel_id, base, assembled));
            assert forall|ch2: TChannelId| (#[trigger] self.cache_entry(ch2)) is Some
                implies exists|witness_channel: TChannelId, window: Seq<Complex<TReal>>|
                {
                    &&& witness_channel.eq_spec(&ch2)
                    &&& #[trigger] self.provider_window(
                        witness_channel,
                        self.cache_entry(ch2)->Some_0.0,
                        window,
                    )
                } by {
                if ch2.eq_spec(&channel_id) {
                    assert(self.cache_entry(ch2) == Some((base, transform@)));
                    assert(channel_id.eq_spec(&ch2));
                    Self::lemma_provider_window_same_setup(
                        old(self),
                        self,
                        channel_id,
                        base,
                        assembled,
                    );
                    assert(self.provider_window(
                        channel_id,
                        self.cache_entry(ch2)->Some_0.0,
                        assembled,
                    ));
                } else {
                    assert(self.cache_entry(ch2) == old(self).cache_entry(ch2));
                    assert(old(self).cache_entry(ch2) is Some);
                    let (witness_channel, window) = choose|
                        witness_channel: TChannelId,
                        window: Seq<Complex<TReal>>,
                    |
                        {
                            &&& witness_channel.eq_spec(&ch2)
                            &&& #[trigger] old(self).provider_window(
                                witness_channel,
                                old(self).cache_entry(ch2)->Some_0.0,
                                window,
                            )
                        };
                    Self::lemma_provider_window_same_setup(
                        old(self),
                        self,
                        witness_channel,
                        old(self).cache_entry(ch2)->Some_0.0,
                        window,
                    );
                    assert(self.provider_window(
                        witness_channel,
                        self.cache_entry(ch2)->Some_0.0,
                        window,
                    ));
                }
            }
        }
        Ok(transform)
    }

    /// Rotate every frequency bin `1 ..= window_size/2` of `transform` by
    /// its one-sample phase shift times `frac` (the Fourier shift theorem),
    /// mirroring each rotated bin's conjugate into the matching
    /// negative-frequency bin `window_size - k` so the spectrum stays
    /// Hermitian; the self-conjugate midpoint is not mirrored.  What the
    /// rotation makes of a bin's value is the kernel's business; what is
    /// pinned here is the structure: the buffer keeps its length, and the
    /// zero-frequency bin reaches the inverse transform exactly as it came
    /// out of the forward spectrum — the structural share of DC invariance.
    pub fn rotate_spectrum(&self, transform: &mut Vec<Complex<TReal>>, frac: TReal)
        requires
            self.wf(),
            old(transform)@.len() == self.spec_window_size(),
        ensures
            final(transform)@.len() == old(transform)@.len(),
            final(transform)@[0] == old(transform)@[0],
    {
        let half = self.window_size / 2;
        let mut k: usize = 1;
        #[verifier::loop_isolation(false)]
        while k <= half
            invariant
                1 <= k <= half + 1,
                transform@.len() == self.spec_window_size(),
                transform@[0] == old(transform)@[0],
            decreases half + 1 - k,
        {
            let value = transform[k];
            let shift = self.phase_shifts_per_sample[k];
            let (rotated, mirrored) = self.kernel.rotated_pair(value, shift, frac);
            transform[k] = rotated;
            let opposite = self.window_size - k;
            if opposite != k {
                transform[opposite] = mirrored;
            }
            k = k + 1;
        }
    }

    /// The no-aliasing reconstruction.  A whole index inside the signal is
    /// passed straight to the provider, a whole index outside it is
    /// silence.  A fractional index fetches (or computes and caches) the
    /// forward transform of the window at its integer base, rotates the
    /// spectrum by the fractional offset, and reads the centre tap of the
    /// inverse transform.  A failed call changes nothing at all, and a
    /// channel that had a cached spectrum keeps one.
    pub fn get_interpolated_sample_no_aliasing_filter(
        &mut self,
        channel_id: TChannelId,
        index: TReal,
    ) -> (result: Result<TReal, TError>)
        requires
            old(self).wf(),
            lawful_eq::<TChannelId>(),
            old(self).accepts_in_range_queries(),
        ensures
            final(self).wf(),
            Self::same_setup(old(self), final(self)),
            forall|length: usize| old(self).has_plan(length) ==> #[trigger] final(self).has_plan(
                length,
            ),
            forall|other: TChannelId|
                !other.eq_spec(&channel_id) ==> #[trigger] final(self).cache_entry(other) == old(
                    self,
                ).cache_entry(other),
            final(self).cache_entry(channel_id) is None ==> old(self).cache_entry(channel_id)
                is None,
            result matches Err(error) ==> old(self).provider_error(channel_id, error),
            result is Err ==> *final(self) == *old(self),
    {
        match self.kernel.whole_index(index) {
            Some(whole) => {
                let result = self.passthrough_sample(channel_id, whole);
                proof {
                    if result is Err {
                        assert(call_ensures(
                            self.provider(),
                            (channel_id, whole as usize),
                            Err::<TReal, TError>(result->Err_0),
                        ));
                    }
                }
                return result;
            },
            None => {},
        }

        let (base, frac) = self.kernel.base_and_frac(index);
        let half = self.window_size / 2;

        let cached = self.transform_cache.fetch(channel_id, base);
        let mut transform = match cached {
            Some(transform) => transform,
            None => match self.compute_transform(channel_id, base) {
                Ok(transform) => transform,
                Err(error) => {
                    return Err(error);
                },
            },
        };

        self.rotate_spectrum(&mut transform, frac);

        let plan = self.plan_registry.get_expect(self.window_size);
        self.kernel.inverse(plan, &mut transform);
        let fill = Complex { re: self.zero_value, im: self.zero_value };
        fit_length(&mut transform, self.window_size, fill);
        let center = transform[half];
        Ok(self.kernel.center_value(plan, center))
    }

    /// Resolve the `ratio` evenly spaced sub-queries of one anti-aliased
    /// query, each through the no-aliasing path, into the buffer handed to
    /// the decimating transform: exactly one entry per sub-query, each a
    /// resolved sample with a zero imaginary part.  The first failing
    /// sub-query aborts the collection.
    fn collect_sub_samples(
        &mut self,
        channel_id: TChannelId,
        index: TReal,
        relative_speed: TReal,
        ratio: usize,
    ) -> (result: Result<Vec<Complex<TReal>>, TError>)
        requires
            old(self).wf(),
            lawful_eq::<TChannelId>(),
            old(self).accepts_in_range_queries(),
        ensures
            final(self).wf(),
            Self::same_setup(old(self), final(self)),
            forall|length: usize| old(self).has_plan(length) ==> #[trigger] final(self).has_plan(
                length,
            ),
            forall|other: TChannelId|
                !other.eq_spec(&channel_id) ==> #[trigger] final(self).cache_entry(other) == old(
                    self,
                ).cache_entry(other),
            final(self).cache_entry(channel_id) is None ==> old(self).cache_entry(channel_id)
                is None,
            result matches Ok(buffer) ==> {
                &&& buffer@.len() == ratio
                &&& forall|j: int|
                    0 <= j < buffer@.len() ==> (#[trigger] buffer@[j]).im == old(self).spec_zero()
            },
            result matches Err(error) ==> old(self).provider_error(channel_id, error),
    {
        let mut sub_samples: Vec<Complex<TReal>> = Vec::new();
        let mut i: usize = 0;
        #[verifier::loop_isolation(false)]
        while i < ratio
            invariant
                i <= ratio,
                sub_samples@.len() == i,
                forall|j: int|
                    0 <= j < sub_samples@.len() ==> (#[trigger] sub_samples@[j]).im == old(
                        self,
                    ).spec_zero(),
                self.wf(),
                Self::same_setup(old(self), self),
                forall|length: usize| old(self).has_plan(length) ==> #[trigger] self.has_plan(
                    length,
                ),
                forall|other: TChannelId|
                    !other.eq_spec(&channel_id) ==> #[trigger] self.cache_entry(other) == old(
                        self,
                    ).cache_entry(other),
                self.cache_entry(channel_id) is None ==> old(self).cache_entry(channel_id)
                    is None,
            decreases ratio - i,
        {
            let sub_index = self.kernel.sub_query_index(index, relative_speed, ratio, i);
            let sample = match self.get_interpolated_sample_no_aliasing_filter(
                channel_id,
                sub_index,
            ) {
                Ok(sample) => sample,
                Err(error) => {
                    return Err(error);
                },
            };
            sub_samples.push(Complex { re: sample, im: self.zero_value });
            i = i + 1;
        }
        Ok(sub_samples)
    }

    /// The anti-aliasing reconstruction for queries advancing faster than
    /// one sample per step: resolve the smallest power-of-two number of
    /// evenly spaced sub-queries spanning one output period through the
    /// no-aliasing path, forward-transform that short sequence, and keep
    /// only its zero-frequency bin — an ideal low-pass filter matched to the
    /// decimation ratio.
    pub fn get_interpolated_sample_with_aliasing_filter(
        &mut self,
        channel_id: TChannelId,
        index: TReal,
        relative_speed: TReal,
    ) -> (result: Result<TReal, TError>)
        requires
            old(self).wf(),
            lawful_eq::<TChannelId>(),
            old(self).accepts_in_range_queries(),
        ensures
            final(self).wf(),
            Self::same_setup(old(self), final(self)),
            forall|length: usize| old(self).has_plan(length) ==> #[trigger] final(self).has_plan(
                length,
            ),
            forall|other: TChannelId|
                !other.eq_spec(&channel_id) ==> #[trigger] final(self).cache_entry(other) == old(
                    self,
                ).cache_entry(other),
            final(self).cache_entry(channel_id) is None ==> old(self).cache_entry(channel_id)
                is None,
            result matches Err(error) ==> old(self).provider_error(channel_id, error),
    {
        let speed_ceil = self.kernel.speed_ceil(relative_speed);
        // This path is only taken for speeds above one, whose ceiling is at
        // least two; the kernel is unverified, so clamp instead of trusting.
        let clamped = if speed_ceil < 2 {
            2
        } else {
            speed_ceil
        };
        let ratio = oversampling_ratio(clamped);

        let mut sub_samples = match self.collect_sub_samples(
            channel_id,
            index,
            relative_speed,
            ratio,
        ) {
            Ok(buffer) => buffer,
            Err(error) => {
                return Err(error);
            },
        };

        let ghost mid = *self;
        if self.plan_registry.get(ratio).is_none() {
            let plan = self.kernel.make_plan(ratio);
            self.plan_registry.insert(ratio, plan);
        }
        proof {
            assert forall|length: usize| old(self).has_plan(length) implies #[trigger] self.has_plan(
                length,
            ) by {
                assert(mid.has_plan(length));
            }
            assert forall|other: TChannelId|
                !other.eq_spec(&channel_id) implies #[trigger] self.cache_entry(other) == old(
                self,
            ).cache_entry(other) by {
                assert(mid.cache_entry(other) == old(self).cache_entry(other));
            }
            // Memoizing one more plan touches no cache entry; every witness
            // carries over to the new state.
            assert forall|ch2: TChannelId| (#[trigger] self.cache_entry(ch2)) is Some
                implies exists|witness_channel: TChannelId, window: Seq<Complex<TReal>>|
                {
                    &&& witness_channel.eq_spec(&ch2)
                    &&& #[trigger] self.provider_window(
                        witness_channel,
                        self.cache_entry(ch2)->Some_0.0,
                        window,
                    )
                } by {
                assert(mid.cache_entry(ch2) is Some);
                let (witness_channel, window) = choose|
                    witness_channel: TChannelId,
                    window: Seq<Complex<TReal>>,
                |
                    {
                        &&& witness_channel.eq_spec(&ch2)
                        &&& #[trigger] mid.provider_window(
                            witness_channel,
                            mid.cache_entry(ch2)->Some_0.0,
                            window,
                        )
                    };
                Self::lemma_provider_window_same_setup(
                    &mid,
                    self,
                    witness_channel,
                    mid.cache_entry(ch2)->Some_0.0,
                    window,
                );
                assert(self.provider_window(
                    witness_channel,
                    self.cache_entry(ch2)->Some_0.0,
                    window,
                ));
            }
            assert(self.wf());
        }
        let plan = self.plan_registry.get_expect(ratio);
        self.kernel.forward(plan, &mut sub_samples);
        let fill = Complex { re: self.zero_value, im: self.zero_value };
        fit_length(&mut sub_samples, ratio, fill);
        let dc = sub_samples[0];
        Ok(self.kernel.dc_value(plan, dc))
    }

    /// Answer one query: the value of `channel_id` at the real-valued
    /// `index`, when the caller advances through the signal at
    /// `relative_speed` indices per output step.  At unit speed or below the
    /// no-aliasing path answers directly; above it the anti-aliasing
    /// oversampler filters out energy beyond the effective Nyquist rate.
    ///
    /// Whatever path is taken: the configuration never changes, the set of
    /// memoized plans only grows, every other channel's cached transform is
    /// left exactly as it was, and any error returned is the provider's own,
    /// propagated unchanged from the first failed sample fetch.
    pub fn get_interpolated_sample(
        &mut self,
        channel_id: TChannelId,
        index: TReal,
        relative_speed: TReal,
    ) -> (result: Result<TReal, TError>)
        requires
            old(self).wf(),
            lawful_eq::<TChannelId>(),
            old(self).accepts_in_range_queries(),
        ensures
            final(self).wf(),
            Self::same_setup(old(self), final(self)),
            forall|length: usize| old(self).has_plan(length) ==> #[trigger] final(self).has_plan(
                length,
            ),
            forall|other: TChannelId|
                !other.eq_spec(&channel_id) ==> #[trigger] final(self).cache_entry(other) == old(
                    self,
                ).cache_entry(other),
            final(self).cache_entry(channel_id) is None ==> old(self).cache_entry(channel_id)
                is None,
            result matches Err(error) ==> old(self).provider_error(channel_id, error),
    {
        if self.kernel.at_most_unit_speed(relative_speed) {
            self.get_interpolated_sample_no_aliasing_filter(channel_id, index)
        } else {
            self.get_interpolated_sample_with_aliasing_filter(channel_id, index, relative_speed)
        }
    }
}

} // verus!
