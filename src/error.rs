use vstd::prelude::*;

verus! {

/// Why an analysis step refused its input.
#[derive(Clone, Copy, Debug, PartialEq, Eq, Structural)]
pub enum SpectrumError {
    /// A window size, overlap or sample rate outside its allowed range.
    InvalidParameter,
    /// Nothing to search: no frames, or frames without bins.
    EmptyInput,
    /// Frames whose bin counts differ, so they cannot be combined.
    InconsistentFrames,
}

impl SpectrumError {
    /// A short human-readable description of the error.
    pub fn message(&self) -> (r: &'static str) {
        match self {
            SpectrumError::InvalidParameter => "invalid parameter",
            SpectrumError::EmptyInput => "empty input",
            SpectrumError::InconsistentFrames => "frames have different bin counts",
        }
    }
}

} // verus!
