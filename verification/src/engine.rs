use vstd::prelude::*;

verus! {

/// Parameters for loading the synthesis model.
pub struct PiperModelParams {
    pub use_cuda: bool,
}

impl Default for PiperModelParams {
    fn default() -> (r: Self)
        ensures
            r.use_cuda == false,
    {
        PiperModelParams { use_cuda: false }
    }
}

/// What one synthesis call yields: mono 16-bit samples, the sample rate the
/// engine reports for them, and whether this chunk ends the utterance.
pub struct SynthesisResult {
    pub audio_samples: Vec<i16>,
    pub sample_rate: u32,
    pub is_final: bool,
}

/// The recognition engine capability the pipeline consumes: load a model
/// from a resolved location, then turn normalized mono 16 kHz samples into
/// text. The engine is opaque; nothing is assumed of what its calls return,
/// and the pipeline states what holds of every outcome.
pub trait TranscriptionEngine {
    /// Load the model at the given location, or report why it cannot be.
    fn load_model(&mut self, model_path: &str) -> Result<(), String>;

    /// Recognize speech in normalized samples; text (possibly empty, for
    /// silence) or an error message.
    fn transcribe_samples(&mut self, samples: &Vec<i16>) -> Result<String, String>;
}

/// The synthesis engine capability the pipeline consumes: load a model, then
/// turn text into samples at a reported rate. Opaque, like the recognition
/// engine.
pub trait SynthesisEngine {
    /// Load the model at the given location, or report why it cannot be.
    fn load_model_with_params(&mut self, model_path: &str, params: &PiperModelParams) -> Result<
        (),
        String,
    >;

    /// Synthesize a complete utterance.
    fn synthesize_text(&mut self, text: &str) -> Result<SynthesisResult, String>;

    /// Synthesize one fragment of an utterance; `is_final` lets the engine
    /// flush any state it keeps across fragments.
    fn synthesize_incremental(&mut self, text: &str, is_final: bool) -> Result<
        SynthesisResult,
        String,
    >;

    /// Drop the loaded model.
    fn unload_model(&mut self);
}

} // verus!
