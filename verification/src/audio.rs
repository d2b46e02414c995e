pub mod audio_buffer;
pub mod audio_device;
pub mod stream_parameters;

pub use audio_buffer::AudioBuffer;
pub use audio_device::Overlap;
pub use stream_parameters::StreamParameters;
