pub mod analyzer_parameters;
pub mod spectrogram;
pub mod stream_analyzer;

pub use analyzer_parameters::AnalyzerParameters;
pub use spectrogram::{MultiChannel, Spectrogram, TimeSeries};
pub use stream_analyzer::StreamAnalyzer;
