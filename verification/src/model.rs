use vstd::prelude::*;
use crate::config::ServerConfig;
use crate::errors::SpeechError;

verus! {

/// The recognition model: its resolved location, as carried by the server
/// configuration. The model file itself is opaque; only the engine reads it.
pub struct Model {
    pub config: ServerConfig,
}

impl Model {
    pub fn new(config: ServerConfig) -> (m: Model)
        ensures
            m.config == config,
    {
        Model { config }
    }

    /// The model's resolved location; fails when none was configured or
    /// found at the edge.
    pub fn get_model_path(&self) -> (r: Result<String, SpeechError>)
        ensures
            match self.config.model_path {
                Option::Some(p) => r matches Ok(q) && q@ == p@,
                Option::None => r matches Err(SpeechError::EngineUnavailable(m)) && m@
                    == "recognition model not found"@,
            },
    {
        self.config.get_model_path()
    }

    /// Whether a model location is known.
    pub fn is_available(&self) -> (r: bool)
        ensures
            r == (self.config.model_path is Some),
    {
        match &self.config.model_path {
            Option::Some(_) => true,
            Option::None => false,
        }
    }
}

} // verus!
