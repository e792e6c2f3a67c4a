use vstd::prelude::*;
use vstd::string::StringExecFns;

verus! {

/// The error kinds of the speech pipeline.
///
/// `UnsupportedFormat` reports bad WAV parameters (bit depth or sample
/// encoding), `IoError` a structurally malformed buffer, `EngineUnavailable`
/// a failed model load, `InferenceError` a failed call on a loaded engine,
/// `TransportError` a malformed stream message, and `ResourceMissing` an
/// absent optional resource (the correction rule table), which callers
/// recover from locally.
#[derive(Debug)]
pub enum SpeechError {
    UnsupportedFormat,
    IoError,
    EngineUnavailable(String),
    InferenceError(String),
    TransportError(String),
    ResourceMissing,
}

impl SpeechError {
    /// A human-readable description, for the error field of a response
    /// message.
    pub fn message(&self) -> (r: String)
        ensures
            r@ == self.spec_message(),
    {
        match self {
            SpeechError::UnsupportedFormat => {
                String::from_str("unsupported audio format: expected 16-bit integer PCM")
            },
            SpeechError::IoError => String::from_str("failed to decode audio data"),
            SpeechError::EngineUnavailable(m) => {
                let mut s = String::from_str("engine unavailable: ");
                s.append(m.as_str());
                s
            },
            SpeechError::InferenceError(m) => {
                let mut s = String::from_str("inference failed: ");
                s.append(m.as_str());
                s
            },
            SpeechError::TransportError(m) => {
                let mut s = String::from_str("stream error: ");
                s.append(m.as_str());
                s
            },
            SpeechError::ResourceMissing => String::from_str("correction rules not found"),
        }
    }

    /// What `message` returns, as a sequence of characters.
    pub open spec fn spec_message(&self) -> Seq<char> {
        match self {
            SpeechError::UnsupportedFormat => {
                "unsupported audio format: expected 16-bit integer PCM"@
            },
            SpeechError::IoError => "failed to decode audio data"@,
            SpeechError::EngineUnavailable(m) => "engine unavailable: "@ + m@,
            SpeechError::InferenceError(m) => "inference failed: "@ + m@,
            SpeechError::TransportError(m) => "stream error: "@ + m@,
            SpeechError::ResourceMissing => "correction rules not found"@,
        }
    }
}

} // verus!
