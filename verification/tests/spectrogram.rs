use std::sync::Arc;

use rt_audio_effect::audio::StreamParameters;
use rt_audio_effect::audio_analyzer::{AnalyzerParameters, MultiChannel, Spectrogram, TimeSeries};

#[test]
fn time_series_starts_with_default_values() {
    let ts = TimeSeries::new(3, 2, 7u8);
    assert_eq!(ts.get_data(), &[7, 7, 7, 7, 7, 7]);
    assert_eq!(ts.get_total_len(), 6);
    assert_eq!(ts.get_length(), 3);
    assert_eq!(ts.get_width(), 2);
}

#[test]
fn time_series_push_keeps_the_newest_values() {
    let mut ts = TimeSeries::new(2, 2, 0i32);
    ts.push(vec![1, 2]);
    assert_eq!(ts.get_data(), &[0, 0, 1, 2]);
    ts.push(vec![3, 4, 5]);
    assert_eq!(ts.get_data(), &[2, 3, 4, 5]);
    assert_eq!(ts.get_last(), &[4, 5]);
    let copy = ts.clone();
    assert_eq!(copy.get_data(), ts.get_data());
}

#[test]
fn multi_channel_holds_one_value_per_channel() {
    let mc = MultiChannel::new(3, String::from("x"));
    assert_eq!(mc.len(), 3);
    assert_eq!(mc.channels[2], "x");
}

fn parameters(history: usize, width: usize) -> Arc<AnalyzerParameters> {
    Arc::new(AnalyzerParameters {
        spectrum_width: width,
        refresh_time_in_samples: 1,
        length_of_history: history,
        refresh_time: 10_000_000,
        spectrogram_duration: 1_000_000_000,
        sample_rate: 48000,
    })
}

#[test]
fn spectrogram_latest_spectrum_is_the_last_pushed() {
    let mut sg: Spectrogram<f32> = Spectrogram::new(
        parameters(3, 4),
        Arc::new(StreamParameters { sample_rate: 48000, channels: 2 }),
        0.0,
    );
    assert_eq!(sg.get_latest_spectrum(), vec![vec![0.0, 0.0], vec![0.0, 0.0]]);
    sg.push_spectrums(vec![vec![1.0, 2.0], vec![3.0, 4.0]]);
    assert_eq!(sg.get_latest_spectrum(), vec![vec![1.0, 2.0], vec![3.0, 4.0]]);
    let (history, dims) = sg.get_spectrogram_for_channel(1);
    assert_eq!(dims, (2, 3));
    assert_eq!(history.get_data(), &[0.0, 0.0, 0.0, 0.0, 3.0, 4.0]);
}
