use vstd::prelude::*;
use crate::audio::{read_wav_samples, read_wav_samples_spec};
use crate::config::ServerConfig;
use crate::dictionary::{
    correct_text_spec,
    fix_transcription_with_dictionary,
    rules_view,
    words_view,
    Dictionary,
    RuleTable,
};
use crate::engine::TranscriptionEngine;
use crate::errors::SpeechError;
use crate::model::Model;

verus! {

/// The recognition side's service: the model location, the optional
/// dictionary and rule table, and the one recognition engine of the process.
/// The engine is loaded lazily, at most once per successful load; a failed
/// load leaves the flag clear so the next call retries. `loads` counts the
/// underlying load attempts.
pub struct TranscriptionService<E: TranscriptionEngine> {
    pub model: Model,
    pub dictionary: Option<Dictionary>,
    pub config: ServerConfig,
    pub rules: Option<RuleTable>,
    pub engine: E,
    pub engine_loaded: bool,
    pub loads: Ghost<nat>,
}

impl<E: TranscriptionEngine> TranscriptionService<E> {
    /// The correction this service applies to a raw transcript: the
    /// dictionary pass when both a dictionary and a rule table are present;
    /// the raw text, unchanged, otherwise.
    pub open spec fn applied_correction(&self, raw: Seq<char>) -> Seq<char> {
        match (self.dictionary, self.rules) {
            (Option::Some(d), Option::Some(rt)) => correct_text_spec(
                raw,
                words_view(d.words@),
                rules_view(rt.rules@),
            ),
            _ => raw,
        }
    }

    /// Build the service and load the recognition engine eagerly; fails when
    /// the model cannot be resolved or loaded.
    pub fn new(
        model: Model,
        dictionary: Option<Dictionary>,
        config: ServerConfig,
        rules: Option<RuleTable>,
        engine: E,
    ) -> (r: Result<TranscriptionService<E>, SpeechError>)
        ensures
            match r {
                Ok(s) => s.model == model && s.dictionary == dictionary && s.config == config
                    && s.rules == rules && s.engine_loaded,
                Err(e) => e matches SpeechError::EngineUnavailable(_),
            },
    {
        let mut service = TranscriptionService {
            model,
            dictionary,
            config,
            rules,
            engine,
            engine_loaded: false,
            loads: Ghost(0nat),
        };
        match service.ensure_engine_loaded() {
            Ok(_) => Ok(service),
            Err(e) => Err(e),
        }
    }

    /// Load the engine if it is not loaded yet. A call on a loaded service
    /// changes nothing and performs no load; otherwise exactly one load is
    /// attempted, and the flag is set only when it succeeds, so a failure is
    /// retried by the next call.
    pub fn ensure_engine_loaded(&mut self) -> (r: Result<(), SpeechError>)
        ensures
            final(self).model == old(self).model,
            final(self).dictionary == old(self).dictionary,
            final(self).config == old(self).config,
            final(self).rules == old(self).rules,
            old(self).engine_loaded ==> *final(self) == *old(self) && r is Ok,
            !old(self).engine_loaded && old(self).model.config.model_path is None ==> final(self).loads
                == old(self).loads && !final(self).engine_loaded && r matches Err(
                SpeechError::EngineUnavailable(_),
            ),
            !old(self).engine_loaded && old(self).model.config.model_path is Some ==> final(self).loads@
                == old(self).loads@ + 1 && (r is Ok <==> final(self).engine_loaded),
            r is Ok ==> final(self).engine_loaded,
            r is Err ==> (r matches Err(SpeechError::EngineUnavailable(_))) && !final(self).engine_loaded,
    {
        if self.engine_loaded {
            return Ok(());
        }
        let path = match self.model.get_model_path() {
            Ok(p) => p,
            Err(e) => {
                return Err(e);
            },
        };
        match self.engine.load_model(path.as_str()) {
            Ok(_) => {
                self.loads = Ghost(self.loads@ + 1);
                self.engine_loaded = true;
                Ok(())
            },
            Err(m) => {
                self.loads = Ghost(self.loads@ + 1);
                Err(SpeechError::EngineUnavailable(m))
            },
        }
    }

    /// Transcribe one complete WAV buffer: ensure the engine is loaded,
    /// normalize the audio, recognize it, and apply the dictionary pass when
    /// it is configured. Audio the normalizer rejects is reported with the
    /// normalizer's exact error; an empty transcript is a valid result.
    pub fn transcribe_audio_bytes(&mut self, audio_data: &Vec<u8>) -> (r: Result<
        String,
        SpeechError,
    >)
        ensures
            final(self).model == old(self).model,
            final(self).dictionary == old(self).dictionary,
            final(self).config == old(self).config,
            final(self).rules == old(self).rules,
            old(self).engine_loaded ==> final(self).engine_loaded && final(self).loads
                == old(self).loads,
            !old(self).engine_loaded && old(self).model.config.model_path is None ==> r matches Err(
                SpeechError::EngineUnavailable(_),
            ),
            old(self).engine_loaded ==> match read_wav_samples_spec(audio_data@) {
                Err(e0) => r == Err::<String, SpeechError>(e0),
                Ok(_) => true,
            },
            r matches Err(SpeechError::InferenceError(_)) ==> final(self).engine_loaded
                && read_wav_samples_spec(audio_data@) is Ok,
            old(self).engine_loaded && read_wav_samples_spec(audio_data@) is Ok ==> match r {
                Ok(_) => true,
                Err(e) => e matches SpeechError::InferenceError(_),
            },
            r matches Ok(t) ==> final(self).engine_loaded && read_wav_samples_spec(audio_data@)
                is Ok && exists|raw: Seq<char>| t@ == old(self).applied_correction(raw),
    {
        match self.ensure_engine_loaded() {
            Ok(_) => {},
            Err(e) => {
                return Err(e);
            },
        }
        let samples = match read_wav_samples(audio_data) {
            Ok(s) => s,
            Err(e) => {
                return Err(e);
            },
        };
        let raw = match self.engine.transcribe_samples(&samples) {
            Ok(t) => t,
            Err(m) => {
                return Err(SpeechError::InferenceError(m));
            },
        };
        let ghost raw_view = raw@;
        match (&self.dictionary, &self.rules) {
            (Option::Some(d), Option::Some(rt)) => {
                let fixed = fix_transcription_with_dictionary(raw, &d.words, rt);
                proof {
                    assert(fixed@ == old(self).applied_correction(raw_view));
                }
                Ok(fixed)
            },
            _ => {
                proof {
                    assert(raw_view == old(self).applied_correction(raw_view));
                }
                Ok(raw)
            },
        }
    }

    /// The model this service recognizes with.
    pub fn get_model(&self) -> (r: &Model)
        ensures
            r == &self.model,
    {
        &self.model
    }

    /// The dictionary, when one is configured.
    pub fn get_dictionary(&self) -> (r: Option<&Dictionary>)
        ensures
            match r {
                Option::Some(d) => self.dictionary matches Option::Some(d2) && *d == d2,
                Option::None => self.dictionary is None,
            },
    {
        self.dictionary.as_ref()
    }

    /// The configuration this service was built with.
    pub fn get_config(&self) -> (r: &ServerConfig)
        ensures
            r == &self.config,
    {
        &self.config
    }
}

/// When the rule table resource is absent, the corrected text is the raw
/// text, character for character.
pub proof fn lemma_dictionary_pass_through<E: TranscriptionEngine>(
    s: TranscriptionService<E>,
    raw: Seq<char>,
)
    requires
        s.rules is None,
    ensures
        s.applied_correction(raw) == raw,
{
}

} // verus!
