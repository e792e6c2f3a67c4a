use vstd::prelude::*;
use vstd::string::StringExecFns;
use crate::errors::SpeechError;

verus! {

/// The synthesis side's configuration, as plain values. Environment and file
/// reading happen at the process edge; the resolved model path, when one was
/// found, stands in `model_path`.
pub struct TtsConfig {
    pub model_path: Option<String>,
    pub sample_rate: u32,
    pub speaker_id: Option<u32>,
}

impl Default for TtsConfig {
    fn default() -> (r: Self)
        ensures
            r.model_path is None,
            r.sample_rate == 22050,
            r.speaker_id is None,
    {
        TtsConfig { model_path: Option::None, sample_rate: 22050, speaker_id: Option::None }
    }
}

impl TtsConfig {
    /// Merge settings read from a configuration file into this one: a file
    /// setting fills a slot only where the environment left the default.
    pub fn merge_with_file(self, file: Self) -> (r: Self)
        ensures
            r.model_path == (if self.model_path is None {
                file.model_path
            } else {
                self.model_path
            }),
            r.sample_rate == (if self.sample_rate == 22050 {
                file.sample_rate
            } else {
                self.sample_rate
            }),
            r.speaker_id == (if self.speaker_id is None {
                file.speaker_id
            } else {
                self.speaker_id
            }),
    {
        let model_path = match self.model_path {
            Option::Some(p) => Option::Some(p),
            Option::None => file.model_path,
        };
        let sample_rate = if self.sample_rate == 22050 {
            file.sample_rate
        } else {
            self.sample_rate
        };
        let speaker_id = match self.speaker_id {
            Option::Some(s) => Option::Some(s),
            Option::None => file.speaker_id,
        };
        TtsConfig { model_path, sample_rate, speaker_id }
    }

    /// The locations to probe for the synthesis model: the configured path
    /// first, then the packaged resource directories.
    pub fn model_path_candidates(&self) -> (r: Vec<String>)
        ensures
            match self.model_path {
                Option::Some(p) => r@.len() == 5 && r@[0]@ == p@ && r@[1]@ == "resources/tts"@
                    && r@[2]@ == "../resources/tts"@ && r@[3]@ == "_up_/resources/tts"@ && r@[4]@
                    == "resources/piper-model"@,
                Option::None => r@.len() == 4 && r@[0]@ == "resources/tts"@ && r@[1]@
                    == "../resources/tts"@ && r@[2]@ == "_up_/resources/tts"@ && r@[3]@
                    == "resources/piper-model"@,
            },
    {
        let mut r: Vec<String> = Vec::new();
        match &self.model_path {
            Option::Some(p) => {
                r.push(p.clone());
            },
            Option::None => {
            },
        }
        r.push(String::from_str("resources/tts"));
        r.push(String::from_str("../resources/tts"));
        r.push(String::from_str("_up_/resources/tts"));
        r.push(String::from_str("resources/piper-model"));
        r
    }

    /// The resolved synthesis model location; fails when none was configured
    /// or found at the edge.
    pub fn get_model_path(&self) -> (r: Result<String, SpeechError>)
        ensures
            match self.model_path {
                Option::Some(p) => r matches Ok(q) && q@ == p@,
                Option::None => r matches Err(e) && e matches SpeechError::EngineUnavailable(m)
                    && m@ == "synthesis model not found"@,
            },
    {
        match &self.model_path {
            Option::Some(p) => Ok(p.clone()),
            Option::None => Err(
                SpeechError::EngineUnavailable(String::from_str("synthesis model not found")),
            ),
        }
    }
}

} // verus!
