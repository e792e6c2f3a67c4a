use vstd::prelude::*;
use vstd::string::StringExecFns;
use crate::engine::{PiperModelParams, SynthesisEngine};
use crate::errors::SpeechError;
use crate::tts_model::TtsModel;
use crate::wav::{encode_wav, encode_wav_spec};

verus! {

/// The per-call state of one outbound synthesis stream: the text fragments
/// buffered since the last flush and the sample rate the engine last
/// reported, used for subsequent WAV headers. `synth_calls` counts the
/// engine invocations; `last_input` and `last_final` record what the latest
/// one was given.
pub struct SynthesisStream<E: SynthesisEngine> {
    pub engine: E,
    pub text_buffer: String,
    pub sample_rate: u32,
    pub synth_calls: Ghost<nat>,
    pub last_input: Ghost<Seq<char>>,
    pub last_final: Ghost<bool>,
}

impl<E: SynthesisEngine> SynthesisStream<E> {
    /// Build the stream and load its synthesis engine; fails when the model
    /// cannot be resolved or loaded.
    pub fn new(model: &TtsModel, engine: E) -> (r: Result<SynthesisStream<E>, SpeechError>)
        ensures
            match r {
                Ok(s) => s.text_buffer@ == Seq::<char>::empty() && s.sample_rate == 22050
                    && s.synth_calls@ == 0,
                Err(e) => e matches SpeechError::EngineUnavailable(_),
            },
    {
        let path = match model.get_model_path() {
            Ok(p) => p,
            Err(e) => {
                return Err(e);
            },
        };
        let mut engine = engine;
        let params = PiperModelParams::default();
        match engine.load_model_with_params(path.as_str(), &params) {
            Ok(_) => Ok(
                SynthesisStream {
                    engine,
                    text_buffer: String::new(),
                    sample_rate: 22050,
                    synth_calls: Ghost(0nat),
                    last_input: Ghost(Seq::empty()),
                    last_final: Ghost(false),
                },
            ),
            Err(m) => Err(SpeechError::EngineUnavailable(m)),
        }
    }

    /// Append a text fragment to the pending buffer. Nothing is synthesized.
    pub fn push_text(&mut self, text: &str) -> (r: Result<(), SpeechError>)
        ensures
            r is Ok,
            final(self).text_buffer@ == old(self).text_buffer@ + text@,
            final(self).sample_rate == old(self).sample_rate,
            final(self).engine == old(self).engine,
            final(self).synth_calls == old(self).synth_calls,
            final(self).last_input == old(self).last_input,
            final(self).last_final == old(self).last_final,
    {
        self.text_buffer.append(text);
        Ok(())
    }

    /// Synthesize whatever is pending. An empty buffer yields empty bytes
    /// and no engine call; otherwise the buffer is taken whole, cleared, and
    /// synthesized in exactly one engine call, whose result is encoded as a
    /// WAV buffer at the rate the engine reported.
    fn synth_pending(&mut self, mark_final: bool) -> (r: Result<Vec<u8>, SpeechError>)
        ensures
            old(self).text_buffer@.len() == 0 ==> *final(self) == *old(self) && (r matches Ok(b)
                && b@ == Seq::<u8>::empty()),
            old(self).text_buffer@.len() > 0 ==> final(self).text_buffer@
                == Seq::<char>::empty() && final(self).synth_calls@ == old(self).synth_calls@ + 1
                && final(self).last_input@ == old(self).text_buffer@ && final(self).last_final@
                == mark_final,
            old(self).text_buffer@.len() > 0 ==> match r {
                Ok(b) => exists|s: Seq<i16>, rate: u32|
                    36 + 2 * s.len() <= u32::MAX && 2 * rate <= u32::MAX && b@ == encode_wav_spec(
                        s,
                        rate,
                    ) && final(self).sample_rate == rate,
                Err(e) => e matches SpeechError::InferenceError(_) || e
                    == SpeechError::UnsupportedFormat,
            },
    {
        if self.text_buffer.as_str().is_empty() {
            return Ok(Vec::new());
        }
        let text = self.text_buffer.clone();
        self.text_buffer = String::new();
        self.synth_calls = Ghost(self.synth_calls@ + 1);
        self.last_input = Ghost(text@);
        self.last_final = Ghost(mark_final);
        let res = match self.engine.synthesize_incremental(text.as_str(), mark_final) {
            Ok(r0) => r0,
            Err(m) => {
                return Err(SpeechError::InferenceError(m));
            },
        };
        if res.audio_samples.len() > (u32::MAX as usize - 36) / 2 {
            return Err(SpeechError::UnsupportedFormat);
        }
        if res.sample_rate > u32::MAX / 2 {
            return Err(SpeechError::UnsupportedFormat);
        }
        self.sample_rate = res.sample_rate;
        let bytes = encode_wav(&res.audio_samples, res.sample_rate);
        Ok(bytes)
    }

    /// Synthesize the pending text as an intermediate fragment: empty buffer
    /// in, empty bytes out, with no engine call; otherwise one engine call
    /// on exactly the buffered text, which is cleared.
    pub fn flush(&mut self) -> (r: Result<Vec<u8>, SpeechError>)
        ensures
            old(self).text_buffer@.len() == 0 ==> *final(self) == *old(self) && (r matches Ok(b)
                && b@ == Seq::<u8>::empty()),
            old(self).text_buffer@.len() > 0 ==> final(self).text_buffer@
                == Seq::<char>::empty() && final(self).synth_calls@ == old(self).synth_calls@ + 1
                && final(self).last_input@ == old(self).text_buffer@ && final(self).last_final@
                == false,
            old(self).text_buffer@.len() > 0 ==> match r {
                Ok(b) => exists|s: Seq<i16>, rate: u32|
                    36 + 2 * s.len() <= u32::MAX && 2 * rate <= u32::MAX && b@ == encode_wav_spec(
                        s,
                        rate,
                    ) && final(self).sample_rate == rate,
                Err(e) => e matches SpeechError::InferenceError(_) || e
                    == SpeechError::UnsupportedFormat,
            },
    {
        self.synth_pending(false)
    }

    /// As `flush`, but marks the engine call final so the engine can flush
    /// any prosody state it keeps across fragments.
    pub fn finalize(&mut self) -> (r: Result<Vec<u8>, SpeechError>)
        ensures
            old(self).text_buffer@.len() == 0 ==> *final(self) == *old(self) && (r matches Ok(b)
                && b@ == Seq::<u8>::empty()),
            old(self).text_buffer@.len() > 0 ==> final(self).text_buffer@
                == Seq::<char>::empty() && final(self).synth_calls@ == old(self).synth_calls@ + 1
                && final(self).last_input@ == old(self).text_buffer@ && final(self).last_final@
                == true,
            old(self).text_buffer@.len() > 0 ==> match r {
                Ok(b) => exists|s: Seq<i16>, rate: u32|
                    36 + 2 * s.len() <= u32::MAX && 2 * rate <= u32::MAX && b@ == encode_wav_spec(
                        s,
                        rate,
                    ) && final(self).sample_rate == rate,
                Err(e) => e matches SpeechError::InferenceError(_) || e
                    == SpeechError::UnsupportedFormat,
            },
    {
        self.synth_pending(true)
    }

    /// Synthesize the given text directly, in one engine call, leaving the
    /// pending buffer as it is.
    pub fn synthesize_chunk(&mut self, text: &str) -> (r: Result<Vec<u8>, SpeechError>)
        ensures
            final(self).text_buffer == old(self).text_buffer,
            final(self).synth_calls@ == old(self).synth_calls@ + 1,
            final(self).last_input@ == text@,
            final(self).last_final@ == false,
            match r {
                Ok(b) => exists|s: Seq<i16>, rate: u32|
                    36 + 2 * s.len() <= u32::MAX && 2 * rate <= u32::MAX && b@ == encode_wav_spec(
                        s,
                        rate,
                    ) && final(self).sample_rate == rate,
                Err(e) => e matches SpeechError::InferenceError(_) || e
                    == SpeechError::UnsupportedFormat,
            },
    {
        self.synth_calls = Ghost(self.synth_calls@ + 1);
        self.last_input = Ghost(text@);
        self.last_final = Ghost(false);
        let res = match self.engine.synthesize_incremental(text, false) {
            Ok(r0) => r0,
            Err(m) => {
                return Err(SpeechError::InferenceError(m));
            },
        };
        if res.audio_samples.len() > (u32::MAX as usize - 36) / 2 {
            return Err(SpeechError::UnsupportedFormat);
        }
        if res.sample_rate > u32::MAX / 2 {
            return Err(SpeechError::UnsupportedFormat);
        }
        self.sample_rate = res.sample_rate;
        let bytes = encode_wav(&res.audio_samples, res.sample_rate);
        Ok(bytes)
    }
}

} // verus!
