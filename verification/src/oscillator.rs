//! The waveform vocabulary of the signal source that feeds the engine.
//!
//! The engine itself only consumes sample blocks; the oscillator that
//! produces them lives with the audio driver. The closed set of waveform
//! shapes it can be asked for is shared vocabulary and lives here.

use vstd::prelude::*;

verus! {

/// The shape of the periodic (or, for noise, aperiodic) signal an
/// oscillator produces.
#[derive(Clone, Copy, Debug, PartialEq, Eq, Structural)]
pub enum Waveform {
    Sine,
    Sawtooth,
    Square,
    Noise,
}

impl Default for Waveform {
    /// A fresh oscillator starts on a sine wave.
    fn default() -> (w: Waveform)
        ensures
            w == Waveform::Sine,
    {
        Waveform::Sine
    }
}

} // verus!
