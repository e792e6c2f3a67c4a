use murmure::engine::{PiperModelParams, SynthesisEngine, SynthesisResult};
use murmure::errors::SpeechError;
use murmure::server::{SynthesisServiceImpl, SynthesizeTextRequest};
use murmure::stream::SynthesisStream;
use murmure::synthesis::SynthesisService;
use murmure::tts_config::TtsConfig;
use murmure::tts_model::TtsModel;
use murmure::wav::{decode_wav, encode_wav};

struct StubVoice {
    calls: u32,
    last_text: String,
    last_final: bool,
    samples: Vec<i16>,
    rate: u32,
    fail: bool,
}

impl StubVoice {
    fn speaking(samples: Vec<i16>, rate: u32) -> StubVoice {
        StubVoice {
            calls: 0,
            last_text: String::new(),
            last_final: false,
            samples,
            rate,
            fail: false,
        }
    }

    fn result(&mut self, text: &str, is_final: bool) -> Result<SynthesisResult, String> {
        self.calls += 1;
        self.last_text = text.to_string();
        self.last_final = is_final;
        if self.fail {
            Err("voice broke".to_string())
        } else {
            Ok(SynthesisResult {
                audio_samples: self.samples.clone(),
                sample_rate: self.rate,
                is_final,
            })
        }
    }
}

impl SynthesisEngine for StubVoice {
    fn load_model_with_params(
        &mut self,
        _model_path: &str,
        _params: &PiperModelParams,
    ) -> Result<(), String> {
        Ok(())
    }

    fn synthesize_text(&mut self, text: &str) -> Result<SynthesisResult, String> {
        self.result(text, true)
    }

    fn synthesize_incremental(
        &mut self,
        text: &str,
        is_final: bool,
    ) -> Result<SynthesisResult, String> {
        self.result(text, is_final)
    }

    fn unload_model(&mut self) {}
}

fn tts_model(path: Option<&str>) -> TtsModel {
    TtsModel::new(TtsConfig {
        model_path: path.map(|p| p.to_string()),
        sample_rate: 22050,
        speaker_id: None,
    })
}

#[test]
fn buffered_fragments_are_synthesized_once_as_their_concatenation() {
    let engine = StubVoice::speaking(vec![100, -100, 50], 22050);
    let mut stream = SynthesisStream::new(&tts_model(Some("voice")), engine).unwrap();
    stream.push_text("a").unwrap();
    stream.push_text("b").unwrap();
    let bytes = stream.flush().unwrap();
    assert_eq!(stream.engine.calls, 1);
    assert_eq!(stream.engine.last_text, "ab");
    assert!(!stream.engine.last_final);
    assert_eq!(bytes, encode_wav(&vec![100, -100, 50], 22050));
}

#[test]
fn flush_with_nothing_pending_skips_the_engine() {
    let engine = StubVoice::speaking(vec![1], 22050);
    let mut stream = SynthesisStream::new(&tts_model(Some("voice")), engine).unwrap();
    stream.push_text("a").unwrap();
    stream.flush().unwrap();
    let second = stream.flush().unwrap();
    assert_eq!(second, Vec::<u8>::new());
    assert_eq!(stream.engine.calls, 1);
}

#[test]
fn finalize_marks_the_engine_call_final() {
    let engine = StubVoice::speaking(vec![7], 16000);
    let mut stream = SynthesisStream::new(&tts_model(Some("voice")), engine).unwrap();
    stream.push_text("the end").unwrap();
    let bytes = stream.finalize().unwrap();
    assert!(stream.engine.last_final);
    assert_eq!(stream.engine.last_text, "the end");
    assert_eq!(bytes, encode_wav(&vec![7], 16000));
}

#[test]
fn finalize_with_nothing_pending_skips_the_engine() {
    let engine = StubVoice::speaking(vec![7], 16000);
    let mut stream = SynthesisStream::new(&tts_model(Some("voice")), engine).unwrap();
    assert_eq!(stream.finalize().unwrap(), Vec::<u8>::new());
    assert_eq!(stream.engine.calls, 0);
}

#[test]
fn reported_rate_updates_the_session() {
    let engine = StubVoice::speaking(vec![1, 2], 48000);
    let mut stream = SynthesisStream::new(&tts_model(Some("voice")), engine).unwrap();
    assert_eq!(stream.sample_rate, 22050);
    stream.push_text("x").unwrap();
    stream.flush().unwrap();
    assert_eq!(stream.sample_rate, 48000);
}

#[test]
fn synthesize_chunk_bypasses_the_buffer() {
    let engine = StubVoice::speaking(vec![3], 22050);
    let mut stream = SynthesisStream::new(&tts_model(Some("voice")), engine).unwrap();
    stream.push_text("pending").unwrap();
    let bytes = stream.synthesize_chunk("now").unwrap();
    assert_eq!(stream.engine.last_text, "now");
    assert_eq!(bytes, encode_wav(&vec![3], 22050));
    // the pending text is still there for the next flush
    stream.flush().unwrap();
    assert_eq!(stream.engine.last_text, "pending");
}

#[test]
fn engine_failure_becomes_inference_error() {
    let mut engine = StubVoice::speaking(vec![1], 22050);
    engine.fail = true;
    let mut stream = SynthesisStream::new(&tts_model(Some("voice")), engine).unwrap();
    stream.push_text("x").unwrap();
    match stream.flush() {
        Err(e) => assert_eq!(e.message(), "inference failed: voice broke"),
        Ok(_) => panic!("engine failure must propagate"),
    }
}

#[test]
fn absurd_engine_rate_is_rejected() {
    let engine = StubVoice::speaking(vec![1], u32::MAX);
    let mut stream = SynthesisStream::new(&tts_model(Some("voice")), engine).unwrap();
    stream.push_text("x").unwrap();
    assert!(matches!(stream.flush(), Err(SpeechError::UnsupportedFormat)));
}

#[test]
fn stream_needs_a_model_path() {
    let engine = StubVoice::speaking(vec![1], 22050);
    let r = SynthesisStream::new(&tts_model(None), engine);
    assert!(matches!(r, Err(SpeechError::EngineUnavailable(_))));
}

#[test]
fn service_synthesizes_text_to_wav_bytes() {
    let engine = StubVoice::speaking(vec![10, 20, -30], 22050);
    let config = TtsConfig { model_path: Some("voice".to_string()), sample_rate: 22050, speaker_id: None };
    let mut svc = SynthesisService::new(tts_model(Some("voice")), config, engine).unwrap();
    let bytes = svc.synthesize_text("hello").unwrap();
    assert_eq!(svc.engine.last_text, "hello");
    let w = decode_wav(&bytes).unwrap();
    assert_eq!(w.channels, 1);
    assert_eq!(w.sample_rate, 22050);
    assert_eq!(w.samples, vec![10, 20, -30]);
}

#[test]
fn service_loads_once_across_calls() {
    let engine = StubVoice::speaking(vec![1], 22050);
    let config = TtsConfig { model_path: Some("voice".to_string()), sample_rate: 22050, speaker_id: None };
    let mut svc = SynthesisService::new(tts_model(Some("voice")), config, engine).unwrap();
    for _ in 0..50 {
        svc.ensure_engine_loaded().unwrap();
    }
    assert!(svc.engine_loaded);
    svc.synthesize_text("a").unwrap();
    svc.synthesize_text("b").unwrap();
    assert_eq!(svc.engine.calls, 2);
}

#[test]
fn service_needs_a_model_path() {
    let engine = StubVoice::speaking(vec![1], 22050);
    let config = TtsConfig { model_path: None, sample_rate: 22050, speaker_id: None };
    let r = SynthesisService::new(tts_model(None), config, engine);
    match r {
        Err(e) => assert_eq!(e.message(), "engine unavailable: synthesis model not found"),
        Ok(_) => panic!("construction must fail without a model path"),
    }
}

#[test]
fn tts_model_reports_availability() {
    assert!(tts_model(Some("voice")).is_available());
    assert!(!tts_model(None).is_available());
    assert_eq!(tts_model(Some("voice")).get_model_path().unwrap(), "voice");
    assert_eq!(tts_model(Some("voice")).get_config().sample_rate, 22050);
}

#[test]
fn synthesis_request_yields_wav_bytes() {
    let engine = StubVoice::speaking(vec![11, -22], 22050);
    let stream = SynthesisStream::new(&tts_model(Some("voice")), engine).unwrap();
    let mut imp = SynthesisServiceImpl::new(stream);
    let resp = imp.synthesize(&SynthesizeTextRequest { text: "hi".to_string(), is_final: false });
    assert!(resp.success);
    assert!(!resp.is_final);
    assert_eq!(resp.error, "");
    assert_eq!(resp.audio_data, encode_wav(&vec![11, -22], 22050));
    assert_eq!(imp.stream.engine.last_text, "hi");
    assert!(!imp.stream.engine.last_final);
}

#[test]
fn final_synthesis_request_is_marked_final() {
    let engine = StubVoice::speaking(vec![5], 16000);
    let stream = SynthesisStream::new(&tts_model(Some("voice")), engine).unwrap();
    let mut imp = SynthesisServiceImpl::new(stream);
    let resp = imp.synthesize(&SynthesizeTextRequest { text: "bye".to_string(), is_final: true });
    assert!(resp.success);
    assert!(resp.is_final);
    assert!(imp.stream.engine.last_final);
}

#[test]
fn empty_synthesis_request_skips_the_engine() {
    let engine = StubVoice::speaking(vec![5], 16000);
    let stream = SynthesisStream::new(&tts_model(Some("voice")), engine).unwrap();
    let mut imp = SynthesisServiceImpl::new(stream);
    let resp = imp.synthesize(&SynthesizeTextRequest { text: String::new(), is_final: true });
    assert!(resp.success);
    assert_eq!(resp.audio_data, Vec::<u8>::new());
    assert_eq!(imp.stream.engine.calls, 0);
}

#[test]
fn failed_synthesis_request_reports_the_error() {
    let mut engine = StubVoice::speaking(vec![5], 16000);
    engine.fail = true;
    let stream = SynthesisStream::new(&tts_model(Some("voice")), engine).unwrap();
    let mut imp = SynthesisServiceImpl::new(stream);
    let resp = imp.synthesize(&SynthesizeTextRequest { text: "x".to_string(), is_final: false });
    assert!(!resp.success);
    assert_eq!(resp.audio_data, Vec::<u8>::new());
    assert_eq!(resp.error, "inference failed: voice broke");
}
