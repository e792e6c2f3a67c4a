use vstd::prelude::*;
use crate::errors::SpeechError;
use crate::tts_config::TtsConfig;

verus! {

/// The synthesis model: its resolved location, as carried by the synthesis
/// configuration. The model file itself is opaque; only the engine reads it.
pub struct TtsModel {
    pub config: TtsConfig,
}

impl TtsModel {
    pub fn new(config: TtsConfig) -> (m: TtsModel)
        ensures
            m.config == config,
    {
        TtsModel { config }
    }

    /// The model's resolved location; fails when none was configured or
    /// found at the edge.
    pub fn get_model_path(&self) -> (r: Result<String, SpeechError>)
        ensures
            match self.config.model_path {
                Option::Some(p) => r matches Ok(q) && q@ == p@,
                Option::None => r matches Err(SpeechError::EngineUnavailable(m)) && m@
                    == "synthesis model not found"@,
            },
    {
        self.config.get_model_path()
    }

    /// Whether a model location is known.
    pub fn is_available(&self) -> (r: bool)
        ensures
            r == (self.config.model_path is Some),
    {
        match &self.config.model_path {
            Option::Some(_) => true,
            Option::None => false,
        }
    }

    /// The configuration this model was built from.
    pub fn get_config(&self) -> (r: &TtsConfig)
        ensures
            r == &self.config,
    {
        &self.config
    }
}

} // verus!
