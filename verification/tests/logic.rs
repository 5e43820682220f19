//! Tests of the verified bookkeeping on its own: window assembly and zero
//! padding, the oversampling ratio, the plan registry and the per-channel
//! cache.  A trivial integer kernel stands in for the FFT, so expected
//! values are exact.

use std::io::{Error, ErrorKind, Result};

use spectral_interpolator::cache::ChannelCache;
use spectral_interpolator::interpolator::Interpolator;
use spectral_interpolator::kernel::{fit_length, Complex, TransformKernel};
use spectral_interpolator::ratio::oversampling_ratio;
use spectral_interpolator::registry::PlanRegistry;

/// A do-nothing kernel over integer scalars: transforms leave the buffer as
/// it is and every index is whole.  Window assembly, caching and plan
/// bookkeeping do not depend on what the kernel computes.
struct NullKernel;

impl TransformKernel<i32, ()> for NullKernel {
    fn zero(&self) -> i32 {
        0
    }

    fn one(&self) -> i32 {
        1
    }

    fn make_plan(&self, _length: usize) {}

    fn forward(&self, _plan: &(), _data: &mut Vec<Complex<i32>>) {}

    fn inverse(&self, _plan: &(), _data: &mut Vec<Complex<i32>>) {}

    fn phase_of(&self, _value: Complex<i32>) -> i32 {
        0
    }

    fn rotated_pair(&self, value: Complex<i32>, _shift: i32, _frac: i32) -> (Complex<i32>, Complex<i32>) {
        (value, value)
    }

    fn center_value(&self, _plan: &(), value: Complex<i32>) -> i32 {
        value.re
    }

    fn dc_value(&self, _plan: &(), value: Complex<i32>) -> i32 {
        value.re
    }

    fn whole_index(&self, index: i32) -> Option<i64> {
        Some(index as i64)
    }

    fn base_and_frac(&self, index: i32) -> (i64, i32) {
        (index as i64, 0)
    }

    fn at_most_unit_speed(&self, speed: i32) -> bool {
        speed <= 1
    }

    fn speed_ceil(&self, speed: i32) -> usize {
        speed as usize
    }

    fn sub_query_index(&self, index: i32, _speed: i32, _ratio: usize, _i: usize) -> i32 {
        index
    }
}

fn index_provider() -> impl Fn(&'static str, usize) -> Result<i32> {
    |channel_id: &str, index: usize| {
        assert!(channel_id.eq("test"));
        Ok(index as i32)
    }
}

#[test]
fn window_is_zero_padded_before_the_signal() {
    let interpolator = Interpolator::new(20, 200, index_provider(), NullKernel);

    // The window for base 5 spans positions -5 .. 15; the first ten slots
    // fall before the signal and must hold silence, not provider samples.
    let window = interpolator.assemble_window("test", 5).unwrap();
    assert_eq!(20, window.len());
    for (j, slot) in window.iter().enumerate() {
        let position = j as i64 + 5 - 10;
        if position < 0 {
            assert_eq!(0, slot.re);
        } else {
            assert_eq!(position as i32, slot.re);
        }
        assert_eq!(0, slot.im);
    }
}

#[test]
fn window_is_zero_padded_after_the_signal() {
    let interpolator = Interpolator::new(20, 200, index_provider(), NullKernel);

    // The window for base 195 spans positions 185 .. 205; the last five
    // slots fall beyond the 200-sample signal.
    let window = interpolator.assemble_window("test", 195).unwrap();
    assert_eq!(20, window.len());
    for (j, slot) in window.iter().enumerate() {
        let position = j as i64 + 195 - 10;
        if position >= 200 {
            assert_eq!(0, slot.re);
        } else {
            assert_eq!(position as i32, slot.re);
        }
        assert_eq!(0, slot.im);
    }
}

#[test]
fn window_assembly_fails_fast_on_a_provider_error() {
    let provider = |channel_id: &str, index: usize| -> Result<i32> {
        assert!(channel_id.eq("test"));
        if index == 3 {
            Err(Error::from(ErrorKind::BrokenPipe))
        } else {
            Ok(index as i32)
        }
    };
    let interpolator = Interpolator::new(20, 200, provider, NullKernel);

    // Base 5's window spans -5 .. 15, which contains the failing index 3.
    assert_eq!(
        ErrorKind::BrokenPipe,
        interpolator.assemble_window("test", 5).unwrap_err().kind()
    );
    // Base 100's window spans 90 .. 110 and never touches index 3.
    assert!(interpolator.assemble_window("test", 100).is_ok());
}

#[test]
fn whole_queries_pass_through_unchanged() {
    let mut interpolator = Interpolator::new(20, 200, index_provider(), NullKernel);

    assert_eq!(7, interpolator.get_interpolated_sample("test", 7, 1).unwrap());
    assert_eq!(0, interpolator.get_interpolated_sample("test", 0, 1).unwrap());
    assert_eq!(
        42,
        interpolator.passthrough_sample("test", 42).unwrap()
    );
}

#[test]
fn whole_queries_outside_the_signal_are_silence() {
    let untouchable = |channel_id: &str, _: usize| -> Result<i32> {
        assert!(channel_id.eq("test"));
        panic!("the provider must not be consulted outside the signal")
    };
    let mut interpolator = Interpolator::new(20, 200, untouchable, NullKernel);

    assert_eq!(0, interpolator.get_interpolated_sample("test", 200, 1).unwrap());
    assert_eq!(0, interpolator.passthrough_sample("test", -3).unwrap());
    assert_eq!(0, interpolator.passthrough_sample("test", 200).unwrap());
}

#[test]
fn ratio_is_the_smallest_power_of_two_at_or_above_the_speed() {
    assert_eq!(2, oversampling_ratio(2));
    assert_eq!(4, oversampling_ratio(3));
    assert_eq!(4, oversampling_ratio(4));
    assert_eq!(8, oversampling_ratio(5));
    assert_eq!(8, oversampling_ratio(8));
    assert_eq!(16, oversampling_ratio(9));
    assert_eq!(1024, oversampling_ratio(1000));
}

#[test]
fn registry_memoizes_one_plan_per_length() {
    let mut registry: PlanRegistry<u32> = PlanRegistry::new();
    assert!(registry.get(8).is_none());

    registry.insert(8, 800);
    registry.insert(4, 400);
    assert_eq!(Some(&800), registry.get(8));
    assert_eq!(Some(&400), registry.get(4));
    assert_eq!(800, *registry.get_expect(8));
    assert!(registry.get(16).is_none());
}

#[test]
fn cache_returns_a_spectrum_only_for_the_matching_base() {
    let mut cache: ChannelCache<u64, u32> = ChannelCache::new(3);

    assert!(cache.fetch(1, 10).is_none());

    cache.store(1, 10, vec![7, 8, 9]);
    assert_eq!(Some(vec![7, 8, 9]), cache.fetch(1, 10));
    assert!(cache.fetch(1, 11).is_none());
    assert!(cache.fetch(2, 10).is_none());
}

#[test]
fn storing_one_channel_leaves_the_others_alone() {
    let mut cache: ChannelCache<u64, u32> = ChannelCache::new(2);

    cache.store(1, 10, vec![1, 2]);
    cache.store(2, 20, vec![3, 4]);
    assert_eq!(Some(vec![1, 2]), cache.fetch(1, 10));
    assert_eq!(Some(vec![3, 4]), cache.fetch(2, 20));

    // Superseding channel 2's entry must not disturb channel 1's.
    cache.store(2, 21, vec![5, 6]);
    assert_eq!(Some(vec![1, 2]), cache.fetch(1, 10));
    assert!(cache.fetch(2, 20).is_none());
    assert_eq!(Some(vec![5, 6]), cache.fetch(2, 21));
}

#[test]
fn fit_length_truncates_or_pads() {
    let mut data = vec![1, 2, 3, 4, 5];
    fit_length(&mut data, 3, 0);
    assert_eq!(vec![1, 2, 3], data);

    fit_length(&mut data, 6, 9);
    assert_eq!(vec![1, 2, 3, 9, 9, 9], data);
}
