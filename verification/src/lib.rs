//! A speech pipeline: WAV decoding and encoding, audio normalization
//! (mono mixdown and linear-interpolation resampling to 16 kHz), lazily
//! loaded recognition and synthesis engines behind load-once caches,
//! dictionary-driven transcript correction, and the streaming state
//! machines that fold audio fragments into one transcription and text
//! fragments into synthesized WAV buffers. The engines themselves are
//! opaque collaborators reached through the `engine` traits; every
//! decision around them is specified and checked here.

pub mod audio;
pub mod config;
pub mod dictionary;
pub mod engine;
pub mod errors;
pub mod model;
pub mod server;
pub mod stream;
pub mod synthesis;
pub mod transcription;
pub mod tts_config;
pub mod tts_model;
pub mod wav;
