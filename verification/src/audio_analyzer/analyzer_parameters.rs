use vstd::prelude::*;

verus! {

/// The settings of a stream analyzer. Time spans are counted in
/// nanoseconds.
#[derive(Clone, Copy, Debug, PartialEq, Eq, Structural)]
pub struct AnalyzerParameters {
    /// Samples per channel that one spectrum is computed from.
    pub spectrum_width: usize,
    /// New samples per channel between two spectrums.
    pub refresh_time_in_samples: usize,
    /// Spectrums kept in the spectrogram history.
    pub length_of_history: usize,
    /// Time between two spectrums, in nanoseconds.
    pub refresh_time: u64,
    /// Time covered by the spectrogram history, in nanoseconds.
    pub spectrogram_duration: u64,
    /// Frames per second of the analyzed stream.
    pub sample_rate: u32,
}

} // verus!
