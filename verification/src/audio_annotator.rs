pub mod annotator;

pub use annotator::{HistoryBuffer, SpectrumFilter, StreamAnalyzerAnnotator};
