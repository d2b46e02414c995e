use rt_audio_effect::audio_analyzer::TimeSeries;
use rt_audio_effect::plot::helpers::make_string;
use rt_audio_effect::plot::lines::{line_strip_closed, line_strip_open, line_strip_vertices};
use rt_audio_effect::plot::spectrogram_data::SpectrogramLayout;
use rt_audio_effect::plot::storage_buffer::StorageLayout;
use rt_audio_effect::plot::view::{PlotView, ViewBounds};
use rt_audio_effect::plot::{SpectrogramData, StorageBuffer};

#[test]
fn make_string_reads_bytes_as_characters() {
    assert_eq!(make_string(vec![72, 105, 33]), "Hi!");
    assert_eq!(make_string(vec![-23]), "\u{e9}");
    assert_eq!(make_string(vec![]), "");
}

#[test]
fn storage_buffer_layout_puts_the_count_first() {
    let mut b = StorageBuffer::new(7);
    assert_eq!(b.len(), 0);
    let layout = b.store_array(&[1.0f32, 2.0, 3.0]);
    assert_eq!(
        layout,
        StorageLayout { total_size: 16, count: 3, count_size: 4, array_offset: 4, array_size: 12 }
    );
    assert_eq!(b.len(), 3);
    assert_eq!(b.id(), 7);
}

#[test]
fn storage_buffer_length_is_that_of_the_last_array() {
    let mut b = StorageBuffer::new(1);
    b.store_array(&[1u64, 2, 3, 4]);
    let layout = b.store_array(&[9u8, 8]);
    assert_eq!(b.len(), 2);
    assert_eq!(layout.array_size, 2);
    assert_eq!(layout.total_size, 6);
    b.store_array::<u32>(&[]);
    assert_eq!(b.len(), 0);
}

#[test]
fn open_strip_repeats_its_ends() {
    assert_eq!(line_strip_open(&[1, 2, 3]), vec![1, 1, 2, 3, 3]);
    assert_eq!(line_strip_open(&[5]), vec![5, 5, 5]);
}

#[test]
fn closed_strip_wraps_around() {
    assert_eq!(line_strip_closed(&[1, 2, 3]), vec![3, 1, 2, 3, 1, 2]);
    assert_eq!(line_strip_vertices(6, 6), 24);
}

#[test]
fn flipped_view_swaps_bottom_and_top() {
    let mut v = PlotView::new();
    assert_eq!(v.set_view((800, 600)), ViewBounds { left: 0, right: 800, bottom: 0, top: 600 });
    assert_eq!(v.flip_vertically(true), ViewBounds { left: 0, right: 800, bottom: 600, top: 0 });
    assert_eq!(v.set_view((100, 50)), ViewBounds { left: 0, right: 100, bottom: 50, top: 0 });
    assert_eq!(v.flip_vertically(false), ViewBounds { left: 0, right: 100, bottom: 0, top: 50 });
}

#[test]
fn spectrogram_data_layout_and_size() {
    let mut d = SpectrogramData::new(3);
    assert_eq!(d.size(), 0);
    let series = TimeSeries::new(4, 3, 0.0f32);
    let layout = d.buffer_data(&(series, (3, 4)));
    assert_eq!(
        layout,
        SpectrogramLayout { total_size: 56, width_offset: 0, length_offset: 4, magnitudes_offset: 8 }
    );
    assert_eq!(d.size(), 12);
    assert_eq!(d.id(), 3);
}
