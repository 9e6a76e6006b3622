pub mod decoder;
pub mod decoder_stream;
pub mod output;
pub mod playback;
pub mod resampler;
pub mod stream;
pub mod track;
pub mod types;

pub use decoder_stream::AudioDecoder;
pub use resampler::AudioResampler;
pub use stream::PcmStream;
pub use types::{AudioSpec, PcmBuffer};
