use vstd::prelude::*;

verus! {

/// Where the parts of an array go in a shader storage buffer: the element
/// count as a `u32` at offset 0, then the elements.
#[derive(Clone, Copy, Debug, PartialEq, Eq, Structural)]
pub struct StorageLayout {
    /// Bytes to allocate.
    pub total_size: isize,
    /// The element count to write at offset 0.
    pub count: u32,
    /// Bytes taken by the count.
    pub count_size: isize,
    /// Where the elements start.
    pub array_offset: isize,
    /// Bytes taken by the elements.
    pub array_size: isize,
}

/// A shader storage buffer on the GPU, known by its OpenGL name, and the
/// number of elements last stored in it.
pub struct StorageBuffer {
    storage_buffer_id: u32,
    element_count: i32,
}

impl StorageBuffer {
    pub closed spec fn spec_id(&self) -> u32 {
        self.storage_buffer_id
    }

    pub closed spec fn spec_len(&self) -> i32 {
        self.element_count
    }

    /// The empty buffer with the OpenGL name `storage_buffer_id`.
    pub fn new(storage_buffer_id: u32) -> (b: Self)
        ensures
            b.spec_id() == storage_buffer_id,
            b.spec_len() == 0,
    {
        StorageBuffer { storage_buffer_id, element_count: 0 }
    }

    /// The OpenGL name of the buffer.
    pub fn id(&self) -> (id: u32)
        ensures
            id == self.spec_id(),
    {
        self.storage_buffer_id
    }

    /// Records that `data` is stored in the buffer and says where its
    /// count and elements go. The byte sizes are exact whenever they fit
    /// in an `isize`, which they do for every slice in memory; past that
    /// bound they wrap, as plain machine arithmetic would.
    pub fn store_array<T>(&mut self, data: &[T]) -> (layout: StorageLayout)
        ensures
            final(self).spec_id() == old(self).spec_id(),
            final(self).spec_len() == data@.len() as i32,
            layout.count == data@.len() as u32,
            layout.count_size == 4,
            layout.array_offset == 4,
            4 + data@.len() * vstd::layout::size_of::<T>() <= isize::MAX ==> {
                &&& layout.total_size == (4 + data@.len() * vstd::layout::size_of::<T>()) as isize
                &&& layout.array_size == (data@.len() * vstd::layout::size_of::<T>()) as isize
            },
    {
        let len = data.len();
        self.element_count = #[verifier::truncate] (len as i32);
        let len_size: isize = 4;
        let element_size = core::mem::size_of::<T>();
        let wide_len = len as u128;
        let wide_size = element_size as u128;
        assert(wide_len * wide_size <= 0xffff_ffff_ffff_ffff_ffff_ffff_ffff_ffffu128) by (nonlinear_arith)
            requires
                wide_len <= 0xffff_ffff_ffff_ffffu128,
                wide_size <= 0xffff_ffff_ffff_ffffu128,
        ;
        let bytes = wide_len * wide_size;
        let (total_size, array_size) = if bytes <= isize::MAX as u128 - 4 {
            let array_size = bytes as isize;
            (len_size + array_size, array_size)
        } else {
            let array_size = #[verifier::truncate] (len.wrapping_mul(element_size) as isize);
            (len_size.wrapping_add(array_size), array_size)
        };
        StorageLayout {
            total_size,
            count: len as u32,
            count_size: len_size,
            array_offset: len_size,
            array_size,
        }
    }

    /// The number of elements last stored.
    pub fn len(&self) -> (n: i32)
        ensures
            n == self.spec_len(),
    {
        self.element_count
    }
}

} // verus!
