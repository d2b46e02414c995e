use vstd::prelude::*;

verus! {

/// The format of an audio stream: frames per second and interleaved
/// channels per frame.
#[derive(Clone, Copy, Debug, PartialEq, Eq, Structural)]
pub struct StreamParameters {
    pub sample_rate: u32,
    pub channels: u16,
}

} // verus!
