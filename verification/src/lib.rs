//! Fractional-index interpolation of a discretely sampled, band-limited
//! signal by spectral reconstruction.
//!
//! The value of one channel of a signal at an arbitrary real-valued index is
//! reconstructed from a window of integer-indexed samples: the window is
//! transformed to the frequency domain, every bin's phase is rotated in
//! proportion to the fractional offset (the Fourier shift theorem), and the
//! centre tap of the inverse transform is read back.  When the caller scans
//! the signal faster than one sample per step, an oversample-and-decimate
//! wrapper keeps energy above the effective Nyquist frequency out of the
//! result.
//!
//! The crate verifies the whole surrounding structure: window assembly with
//! zero padding at the stream edges, the per-channel transform cache, the
//! plan registry, the oversampling ratio, and how every query moves data
//! between them.  The floating-point arithmetic itself (the discrete Fourier
//! transform and the polar phase rotations) is injected by the host through
//! the [`kernel::TransformKernel`] trait and is deliberately left outside the
//! proofs: no contract in this crate claims anything about the numeric values
//! such a kernel returns.

pub mod cache;
pub mod interpolator;
pub mod kernel;
pub mod ratio;
pub mod registry;
