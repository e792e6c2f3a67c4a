use vstd::prelude::*;
use crate::engine::{PiperModelParams, SynthesisEngine};
use crate::errors::SpeechError;
use crate::tts_config::TtsConfig;
use crate::tts_model::TtsModel;
use crate::wav::{encode_wav, encode_wav_spec};

verus! {

/// The synthesis side's service: the model location and the one synthesis
/// engine of the process, loaded lazily and at most once per successful
/// load; a failed load leaves the flag clear so the next call retries.
/// `loads` counts the underlying load attempts.
pub struct SynthesisService<E: SynthesisEngine> {
    pub model: TtsModel,
    pub config: TtsConfig,
    pub engine: E,
    pub engine_loaded: bool,
    pub loads: Ghost<nat>,
}

impl<E: SynthesisEngine> SynthesisService<E> {
    /// Build the service and load the synthesis engine eagerly; fails when
    /// the model cannot be resolved or loaded.
    pub fn new(model: TtsModel, config: TtsConfig, engine: E) -> (r: Result<
        SynthesisService<E>,
        SpeechError,
    >)
        ensures
            match r {
                Ok(s) => s.model == model && s.config == config && s.engine_loaded,
                Err(e) => e matches SpeechError::EngineUnavailable(_),
            },
    {
        let mut service = SynthesisService {
            model,
            config,
            engine,
            engine_loaded: false,
            loads: Ghost(0nat),
        };
        match service.ensure_engine_loaded() {
            Ok(_) => Ok(service),
            Err(e) => Err(e),
        }
    }

    /// Load the engine if it is not loaded yet. A call on a loaded service
    /// changes nothing and performs no load; otherwise exactly one load is
    /// attempted, and the flag is set only when it succeeds, so a failure is
    /// retried by the next call.
    pub fn ensure_engine_loaded(&mut self) -> (r: Result<(), SpeechError>)
        ensures
            final(self).model == old(self).model,
            final(self).config == old(self).config,
            old(self).engine_loaded ==> *final(self) == *old(self) && r is Ok,
            !old(self).engine_loaded && old(self).model.config.model_path is None ==> final(self).loads
                == old(self).loads && !final(self).engine_loaded && r matches Err(
                SpeechError::EngineUnavailable(_),
            ),
            !old(self).engine_loaded && old(self).model.config.model_path is Some ==> final(self).loads@
                == old(self).loads@ + 1 && (r is Ok <==> final(self).engine_loaded),
            r is Ok ==> final(self).engine_loaded,
            r is Err ==> (r matches Err(SpeechError::EngineUnavailable(_))) && !final(self).engine_loaded,
    {
        if self.engine_loaded {
            return Ok(());
        }
        let path = match self.model.get_model_path() {
            Ok(p) => p,
            Err(e) => {
                return Err(e);
            },
        };
        let params = PiperModelParams::default();
        match self.engine.load_model_with_params(path.as_str(), &params) {
            Ok(_) => {
                self.loads = Ghost(self.loads@ + 1);
                self.engine_loaded = true;
                Ok(())
            },
            Err(m) => {
                self.loads = Ghost(self.loads@ + 1);
                Err(SpeechError::EngineUnavailable(m))
            },
        }
    }

    /// Synthesize a complete utterance: ensure the engine is loaded, turn
    /// the text into samples, and encode them as a WAV buffer at the rate
    /// the engine reported. A result too large for the format's 32-bit size
    /// fields is rejected rather than encoded wrongly.
    pub fn synthesize_text(&mut self, text: &str) -> (r: Result<Vec<u8>, SpeechError>)
        ensures
            final(self).model == old(self).model,
            final(self).config == old(self).config,
            old(self).engine_loaded ==> final(self).engine_loaded && final(self).loads
                == old(self).loads,
            !old(self).engine_loaded && old(self).model.config.model_path is None ==> r matches Err(
                SpeechError::EngineUnavailable(_),
            ),
            match r {
                Ok(b) => final(self).engine_loaded && exists|s: Seq<i16>, rate: u32|
                    36 + 2 * s.len() <= u32::MAX && 2 * rate <= u32::MAX && b@ == encode_wav_spec(
                        s,
                        rate,
                    ),
                Err(e) => e matches SpeechError::EngineUnavailable(_) || e matches
                    SpeechError::InferenceError(_) || e == SpeechError::UnsupportedFormat,
            },
    {
        match self.ensure_engine_loaded() {
            Ok(_) => {},
            Err(e) => {
                return Err(e);
            },
        }
        let res = match self.engine.synthesize_text(text) {
            Ok(r0) => r0,
            Err(m) => {
                return Err(SpeechError::InferenceError(m));
            },
        };
        if res.audio_samples.len() > (u32::MAX as usize - 36) / 2 {
            return Err(SpeechError::UnsupportedFormat);
        }
        if res.sample_rate > u32::MAX / 2 {
            return Err(SpeechError::UnsupportedFormat);
        }
        let bytes = encode_wav(&res.audio_samples, res.sample_rate);
        proof {
            let s = res.audio_samples@;
            let rate = res.sample_rate;
            assert(36 + 2 * s.len() <= u32::MAX && 2 * rate <= u32::MAX && bytes@
                == encode_wav_spec(s, rate));
        }
        Ok(bytes)
    }

    /// The model this service synthesizes with.
    pub fn get_model(&self) -> (r: &TtsModel)
        ensures
            r == &self.model,
    {
        &self.model
    }

    /// The configuration this service was built with.
    pub fn get_config(&self) -> (r: &TtsConfig)
        ensures
            r == &self.config,
    {
        &self.config
    }
}

} // verus!
