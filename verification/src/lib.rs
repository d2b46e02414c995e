//! Stream analysis core of a real-time audio spectrum analyzer: sample
//! buffering per channel, windowing for spectral analysis, spectrogram
//! history, frequency-band annotation and the bookkeeping behind the
//! plots that display them.
pub mod audio;
pub mod audio_analyzer;
pub mod audio_annotator;
pub mod plot;
