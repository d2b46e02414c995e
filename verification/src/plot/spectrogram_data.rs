use vstd::prelude::*;

use crate::audio_analyzer::TimeSeries;

verus! {

/// Where the parts of a spectrogram go in its storage buffer: its width
/// and length as `u32`, then the magnitudes, oldest first.
#[derive(Clone, Copy, Debug, PartialEq, Eq, Structural)]
pub struct SpectrogramLayout {
    /// Bytes to allocate.
    pub total_size: isize,
    pub width_offset: isize,
    pub length_offset: isize,
    pub magnitudes_offset: isize,
}

/// The spectrogram stored on the GPU for drawing: the OpenGL name of its
/// storage buffer and its dimensions.
pub struct SpectrogramData {
    storage_buffer_id: u32,
    width: u32,
    length: u32,
}

impl SpectrogramData {
    pub closed spec fn spec_id(&self) -> u32 {
        self.storage_buffer_id
    }

    /// Magnitudes per spectrum.
    pub closed spec fn spec_width(&self) -> u32 {
        self.width
    }

    /// Spectrums.
    pub closed spec fn spec_length(&self) -> u32 {
        self.length
    }

    /// An empty spectrogram in the storage buffer with the OpenGL name
    /// `storage_buffer_id`.
    pub fn new(storage_buffer_id: u32) -> (d: Self)
        ensures
            d.spec_id() == storage_buffer_id,
            d.spec_width() == 0,
            d.spec_length() == 0,
    {
        SpectrogramData { storage_buffer_id, width: 0, length: 0 }
    }

    /// The OpenGL name of the storage buffer.
    pub fn id(&self) -> (id: u32)
        ensures
            id == self.spec_id(),
    {
        self.storage_buffer_id
    }

    /// Magnitudes per spectrum.
    pub fn width(&self) -> (w: u32)
        ensures
            w == self.spec_width(),
    {
        self.width
    }

    /// Spectrums.
    pub fn length(&self) -> (l: u32)
        ensures
            l == self.spec_length(),
    {
        self.length
    }

    /// Records the dimensions of `spectrogram` and says where its parts go.
    /// The total size is exact whenever it fits in an `isize`, which it does
    /// for every series in memory; past that bound it wraps, as plain
    /// machine arithmetic would.
    pub fn buffer_data<M: Copy>(&mut self, spectrogram: &(TimeSeries<M>, (u32, u32))) -> (layout:
        SpectrogramLayout)
        requires
            spectrogram.0.wf(),
        ensures
            final(self).spec_id() == old(self).spec_id(),
            final(self).spec_width() == spectrogram.1.0,
            final(self).spec_length() == spectrogram.1.1,
            layout.width_offset == 0,
            layout.length_offset == 4,
            layout.magnitudes_offset == 8,
            8 + spectrogram.0.values().len() * vstd::layout::size_of::<M>() <= isize::MAX
                ==> layout.total_size == (8 + spectrogram.0.values().len()
                * vstd::layout::size_of::<M>()) as isize,
    {
        self.width = spectrogram.1.0;
        self.length = spectrogram.1.1;
        let total_len = spectrogram.0.get_total_len();
        proof {
            spectrogram.0.lemma_wf_len();
        }
        let magnitude_size = core::mem::size_of::<M>();
        let wide_len = total_len as u128;
        let wide_size = magnitude_size as u128;
        assert(wide_len * wide_size <= 0xffff_ffff_ffff_ffff_ffff_ffff_ffff_ffffu128) by (nonlinear_arith)
            requires
                wide_len <= 0xffff_ffff_ffff_ffffu128,
                wide_size <= 0xffff_ffff_ffff_ffffu128,
        ;
        let bytes = wide_len * wide_size;
        let total_size: isize = if bytes <= isize::MAX as u128 - 8 {
            8 + bytes as isize
        } else {
            let magnitudes_size = #[verifier::truncate] (total_len.wrapping_mul(magnitude_size) as isize);
            magnitudes_size.wrapping_add(8)
        };
        SpectrogramLayout { total_size, width_offset: 0, length_offset: 4, magnitudes_offset: 8 }
    }

    /// The number of magnitudes drawn: one quad per magnitude.
    pub fn size(&self) -> (n: i32)
        requires
            i32::MIN <= (self.spec_length() as i32) * (self.spec_width() as i32) <= i32::MAX,
        ensures
            n == (self.spec_length() as i32) * (self.spec_width() as i32),
    {
        self.length as i32 * self.width as i32
    }
}

} // verus!
