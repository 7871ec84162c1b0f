//! A block-based vocoder: a bank of second-order bandpass filters splits a
//! carrier and a modulator signal into log-spaced frequency bands, the peak
//! positive amplitude of each modulator band scales the paired carrier band,
//! and the scaled bands are mixed back into one output block.
//!
//! All samples, frequencies and filter coefficients are carried in signed
//! fixed-point arithmetic (see [`fixed`]), so every stage of the pipeline has
//! an exact arithmetic specification.

pub mod bands;
pub mod biquad_filter;
pub mod errors;
pub mod fixed;
pub mod oscillator;
pub mod vocoder;

pub use crate::bands::Band;
pub use crate::biquad_filter::BiquadFilter;
pub use crate::errors::VocoderError;
pub use crate::fixed::FX_SCALE;
pub use crate::fixed::FX_SAT;
pub use crate::oscillator::Waveform;
pub use crate::vocoder::BandTuning;
pub use crate::vocoder::FRAMES;
pub use crate::vocoder::Vocoder;
