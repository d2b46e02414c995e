use std::sync::Arc;

use rt_audio_effect::audio_analyzer::AnalyzerParameters;
use rt_audio_effect::audio_annotator::annotator::FREQUENCY_RANGES;
use rt_audio_effect::audio_annotator::{HistoryBuffer, SpectrumFilter, StreamAnalyzerAnnotator};

#[test]
fn history_keeps_at_most_its_length() {
    let mut h: HistoryBuffer<u8> = HistoryBuffer::new(1_000_000_000, 300_000_000, 3);
    for v in 0..5u8 {
        h.push(v);
    }
    assert_eq!(h.get(), vec![2, 3, 4]);
    let mut h2: HistoryBuffer<u8> = HistoryBuffer::new(1_000_000_000, 400_000_000, 2);
    h2.push(7);
    assert_eq!(h2.peek(), &[7]);
    h2.push(8);
    h2.push(9);
    assert_eq!(h2.peek(), &[8, 9]);
}

#[test]
fn history_of_zero_length_keeps_nothing() {
    let mut h: HistoryBuffer<u8> = HistoryBuffer::new(0, 0, 0);
    h.push(1);
    assert!(h.peek().is_empty());
}

#[test]
fn filter_selects_its_bins_and_records_values() {
    let mut f: SpectrumFilter<f32> = SpectrumFilter::new(vec![1, 3], 2_000_000_000, 1_000_000_000, 2);
    assert_eq!(f.select(&[0.0, 1.5, 9.0, 2.5]), vec![1.5, 2.5]);
    f.record(4.0);
    f.record(5.0);
    f.record(6.0);
    assert_eq!(f.history().get(), vec![5.0, 6.0]);
}

fn parameters() -> Arc<AnalyzerParameters> {
    Arc::new(AnalyzerParameters {
        spectrum_width: 4800,
        refresh_time_in_samples: 480,
        length_of_history: 100,
        refresh_time: 10_000_000,
        spectrogram_duration: 1_000_000_000,
        sample_rate: 48000,
    })
}

/// The first bin and the bin past the last of every band, as the
/// application derives them: each frequency divided by the bin width in
/// single precision, rounded.
fn band_edges(spectrum_width: usize, sample_rate: u32) -> [[usize; 2]; 7] {
    let bin_width = sample_rate as f32 / spectrum_width as f32;
    let mut edges = [[0usize; 2]; 7];
    for (band, range) in FREQUENCY_RANGES.iter().enumerate() {
        edges[band] = [
            (range[0] as f32 / bin_width).round() as usize,
            (range[1] as f32 / bin_width).round() as usize,
        ];
    }
    edges
}

#[test]
fn bands_map_to_bins_of_ten_hertz() {
    let a: StreamAnalyzerAnnotator<f32> =
        StreamAnalyzerAnnotator::new(parameters(), 1_000_000_000, 2, band_edges(4800, 48000), 1);
    let spectrum: Vec<f32> = (0..2400).map(|i| i as f32).collect();
    // sub-bass: 0 Hz .. 60 Hz -> bins 0..6
    assert_eq!(a.band_samples(0, 0, &spectrum), vec![0.0, 1.0, 2.0, 3.0, 4.0, 5.0]);
    // bass: 60 Hz .. 250 Hz -> bins 6..25
    let bass = a.band_samples(1, 1, &spectrum);
    assert_eq!(bass.len(), 19);
    assert_eq!(bass[0], 6.0);
    assert_eq!(bass[18], 24.0);
    // upper treble: 6000 Hz .. 20000 Hz -> bins 600..2000
    let top = a.band_samples(0, 6, &spectrum);
    assert_eq!(top.len(), 1400);
    assert_eq!(top[0], 600.0);
    assert_eq!(top[1399], 1999.0);
}

#[test]
fn bands_hold_the_given_edges() {
    // at 48000 Hz over 606 samples, 4000 Hz falls just below bin 50.5
    let edges = band_edges(606, 48000);
    assert_eq!(edges[4], [25, 50]);
    let a: StreamAnalyzerAnnotator<f32> =
        StreamAnalyzerAnnotator::new(parameters(), 1_000_000_000, 1, edges, 1);
    assert_eq!(a.ranges_indices()[4], (25..50).collect::<Vec<usize>>());
    assert_eq!(a.ranges_indices()[5], (50..76).collect::<Vec<usize>>());
    let all: Vec<usize> = a.ranges_indices().iter().flatten().copied().collect();
    assert_eq!(all, (0..252).collect::<Vec<usize>>());
}

#[test]
fn band_values_go_to_the_histories_of_one_channel() {
    let mut a: StreamAnalyzerAnnotator<f32> =
        StreamAnalyzerAnnotator::new(parameters(), 2_000_000_000, 2, band_edges(4800, 48000), 2);
    a.push_band_values(1, vec![1.0, 2.0, 3.0, 4.0, 5.0, 6.0, 7.0]);
    a.push_band_values(1, vec![8.0, 9.0, 10.0, 11.0, 12.0, 13.0, 14.0]);
    a.push_band_values(1, vec![15.0, 16.0, 17.0, 18.0, 19.0, 20.0, 21.0]);
    assert_eq!(a.band_history(1, 0).get(), vec![8.0, 15.0]);
    assert_eq!(a.band_history(1, 6).get(), vec![14.0, 21.0]);
    assert!(a.band_history(0, 0).get().is_empty());
}

#[test]
fn band_values_of_every_channel_go_to_their_histories() {
    let mut a: StreamAnalyzerAnnotator<f32> =
        StreamAnalyzerAnnotator::new(parameters(), 2_000_000_000, 3, band_edges(4800, 48000), 2);
    a.push_channels_band_values(vec![
        vec![1.0, 2.0, 3.0, 4.0, 5.0, 6.0, 7.0],
        vec![8.0, 9.0, 10.0, 11.0, 12.0, 13.0, 14.0],
    ]);
    assert_eq!(a.band_history(0, 2).get(), vec![3.0]);
    assert_eq!(a.band_history(1, 6).get(), vec![14.0]);
    assert!(a.band_history(2, 0).get().is_empty());
}
