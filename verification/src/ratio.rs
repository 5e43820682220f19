//! The oversampling ratio used by the anti-aliasing path.
//!
//! When a caller advances through the signal faster than one sample per
//! output step, the interpolator synthesizes several sub-samples per step and
//! low-pass filters them.  The number of sub-samples is the smallest power of
//! two that is at least the relative speed, so that the per-step spacing
//! (speed divided by ratio) never exceeds one sample.

use vstd::arithmetic::power::pow;
use vstd::arithmetic::power2::{is_pow2, is_pow2_equiv, is_pow2_exists};
use vstd::arithmetic::power2::{lemma2_to64, lemma_pow2};
use vstd::prelude::*;

verus! {

/// Largest oversampling ratio the anti-aliasing path will use.  A relative
/// speed whose ceiling exceeds this bound (far beyond any practical playback
/// rate) is clamped here rather than overflowing the ratio computation.
pub const RATIO_CAP: usize = 0x4000_0000;

/// The number of sub-samples the anti-aliasing path spreads over one output
/// step: the smallest power of two that is at least `speed_ceil`, clamped at
/// [`RATIO_CAP`].
pub fn oversampling_ratio(speed_ceil: usize) -> (ratio: usize)
    requires
        speed_ceil >= 2,
    ensures
        is_pow2(ratio as int),
        ratio >= 2,
        speed_ceil <= RATIO_CAP ==> speed_ceil <= ratio < 2 * speed_ceil,
        speed_ceil > RATIO_CAP ==> ratio == RATIO_CAP,
{
    let mut ratio: usize = 1;
    proof {
        reveal(is_pow2);
    }
    while ratio < speed_ceil && ratio < RATIO_CAP
        invariant
            speed_ceil >= 2,
            is_pow2(ratio as int),
            1 <= ratio <= RATIO_CAP,
            ratio < 2 * speed_ceil,
        decreases RATIO_CAP + speed_ceil - ratio,
    {
        proof {
            lemma_ratio_cap_is_pow2();
            lemma_pow2_no_strays(ratio as int, RATIO_CAP as int);
            reveal(is_pow2);
            assert(is_pow2(2 * ratio as int));
        }
        ratio = ratio * 2;
    }
    ratio
}

/// Among the powers of two nothing lies strictly between `p` and `2 * p`: a
/// power of two above `p` is at least `2 * p`.  This is what makes the result
/// of [`oversampling_ratio`] the *smallest* power of two admitted by its
/// contract.
pub proof fn lemma_pow2_no_strays(p: int, q: int)
    requires
        is_pow2(p),
        is_pow2(q),
        p < q,
    ensures
        2 * p <= q,
    decreases p,
{
    reveal(is_pow2);
    if p > 1 {
        lemma_pow2_no_strays(p / 2, q / 2);
    }
}

proof fn lemma_ratio_cap_is_pow2()
    ensures
        is_pow2(RATIO_CAP as int),
{
    lemma_pow2(30);
    lemma2_to64();
    assert(pow(2, 30) == RATIO_CAP as int);
    assert(is_pow2_exists(RATIO_CAP as int));
    is_pow2_equiv(RATIO_CAP as int);
}

} // verus!
