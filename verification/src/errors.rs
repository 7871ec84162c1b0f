//! Errors raised by the vocoder: invalid static configuration rejected at
//! construction, and buffer-contract violations rejected at each call.

use vstd::prelude::*;

verus! {

#[derive(Clone, Copy, Debug, PartialEq, Eq, Structural)]
pub enum VocoderError {
    /// A sample block shorter than two samples cannot seed the second-order
    /// recurrence.
    BlockTooShort,
    /// Input and output blocks handed to one call differ in length.
    LengthMismatch,
    /// A filter-bank configuration with no bands, a non-positive frequency
    /// or ratio, or edges that fail to increase up to the top of the range.
    InvalidBandConfig,
}

} // verus!
