pub mod helpers;
pub mod lines;
pub mod shader_holder;
pub mod spectrogram_data;
pub mod timeline;
pub mod storage_buffer;
pub mod view;

pub use shader_holder::ShaderType;
pub use spectrogram_data::SpectrogramData;
pub use storage_buffer::StorageBuffer;
