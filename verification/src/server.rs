use vstd::prelude::*;
use vstd::seq_lib::*;
use vstd::string::StringExecFns;
use crate::audio::read_wav_samples_spec;
use crate::engine::{SynthesisEngine, TranscriptionEngine};
use crate::errors::SpeechError;
use crate::stream::SynthesisStream;
use crate::transcription::TranscriptionService;
use crate::wav::encode_wav_spec;

verus! {

/// A file-mode request: one complete WAV buffer, and the protocol's flag for
/// the dictionary pass. The pass runs whenever the service has a dictionary
/// and a rule table configured.
pub struct TranscribeFileRequest {
    pub audio_data: Vec<u8>,
    pub use_dictionary: bool,
}

/// A file-mode response. On success `error` is empty; on failure `text` is
/// empty and `error` describes what went wrong. The call itself always
/// completes with a response.
pub struct TranscribeFileResponse {
    pub text: String,
    pub success: bool,
    pub error: String,
}

/// One inbound streaming message: an audio fragment, the end-of-stream
/// marker, or an empty message, which is ignored.
pub enum StreamRequest {
    AudioChunk(Vec<u8>),
    EndOfStream(bool),
    Empty,
}

/// The payload of one outbound streaming message.
pub enum StreamResponseKind {
    PartialText(String),
    FinalText(String),
    Error(String),
}

/// One outbound streaming message; the stream ends after a message with
/// `is_final` set.
pub struct TranscribeStreamResponse {
    pub kind: StreamResponseKind,
    pub is_final: bool,
}

/// The per-call state of one inbound stream: the audio gathered so far,
/// append-only, and the end-of-stream flag, which moves one way.
pub struct StreamingSession {
    pub buffer: Vec<u8>,
    pub ended: bool,
}

impl StreamingSession {
    /// A fresh session: nothing gathered, still collecting.
    pub fn new() -> (s: StreamingSession)
        ensures
            s.buffer@ == Seq::<u8>::empty(),
            !s.ended,
    {
        StreamingSession { buffer: Vec::new(), ended: false }
    }

    /// Take in one message while collecting: an audio fragment is appended
    /// to the buffer, the end marker ends collection, an empty message
    /// changes nothing. Returns whether collection is over.
    pub fn accept(&mut self, req: StreamRequest) -> (done: bool)
        requires
            !old(self).ended,
        ensures
            match req {
                StreamRequest::AudioChunk(c) => final(self).buffer@ == old(self).buffer@ + c@
                    && !final(self).ended && !done,
                StreamRequest::EndOfStream(_) => final(self).buffer == old(self).buffer
                    && final(self).ended && done,
                StreamRequest::Empty => *final(self) == *old(self) && !done,
            },
    {
        match req {
            StreamRequest::AudioChunk(mut c) => {
                self.buffer.append(&mut c);
                false
            },
            StreamRequest::EndOfStream(_) => {
                self.ended = true;
                true
            },
            StreamRequest::Empty => false,
        }
    }

    /// Whether the gathered audio should be transcribed: either the end
    /// marker arrived, or some audio did and the stream closed abruptly, in
    /// which case a best-effort transcription is still attempted.
    pub fn should_process(&self) -> (r: bool)
        ensures
            r == (self.buffer@.len() > 0 || self.ended),
    {
        self.buffer.len() > 0 || self.ended
    }
}

/// The audio a fresh session gathers from the message sequence starting at
/// `i`: fragment bytes in arrival order, up to the first end-of-stream
/// marker.
pub open spec fn gathered(reqs: Seq<StreamRequest>, i: int) -> Seq<u8>
    decreases reqs.len() - i,
{
    if i < 0 || i >= reqs.len() {
        Seq::empty()
    } else {
        match reqs[i] {
            StreamRequest::AudioChunk(c) => c@ + gathered(reqs, i + 1),
            StreamRequest::EndOfStream(_) => Seq::empty(),
            StreamRequest::Empty => gathered(reqs, i + 1),
        }
    }
}

/// Whether the message sequence starting at `i` carries an end-of-stream
/// marker.
pub open spec fn saw_eos(reqs: Seq<StreamRequest>, i: int) -> bool
    decreases reqs.len() - i,
{
    if i < 0 || i >= reqs.len() {
        false
    } else {
        match reqs[i] {
            StreamRequest::EndOfStream(_) => true,
            _ => saw_eos(reqs, i + 1),
        }
    }
}

/// Over audio fragments alone, gathering is concatenation: the session's
/// buffer is the fragments joined in arrival order.
pub proof fn lemma_gathered_is_concat(reqs: Seq<StreamRequest>, i: int)
    requires
        0 <= i <= reqs.len(),
        forall|k: int| i <= k < reqs.len() ==> reqs[k] is AudioChunk,
    ensures
        gathered(reqs, i) == reqs.subrange(i, reqs.len() as int).map_values(
            |r: StreamRequest| r->AudioChunk_0@,
        ).flatten(),
    decreases reqs.len() - i,
{
    let tail = reqs.subrange(i, reqs.len() as int).map_values(|r: StreamRequest| r->AudioChunk_0@);
    if i >= reqs.len() {
        assert(tail =~= Seq::<Seq<u8>>::empty());
        assert(tail.flatten() == Seq::<u8>::empty());
    } else {
        lemma_gathered_is_concat(reqs, i + 1);
        let rest = reqs.subrange(i + 1, reqs.len() as int).map_values(
            |r: StreamRequest| r->AudioChunk_0@,
        );
        assert(tail.drop_first() =~= rest);
        assert(tail[0] == reqs[i]->AudioChunk_0@);
        assert(tail.flatten() == tail.first() + tail.drop_first().flatten());
    }
}

/// The single response for a malformed inbound message, after which the
/// session ends. Its final flag stays clear: the error ends the session
/// without a final transcript.
pub fn transport_error_response(message: &str) -> (r: TranscribeStreamResponse)
    ensures
        r.kind matches StreamResponseKind::Error(m) && m@ == "stream error: "@ + message@,
        !r.is_final,
{
    let e = SpeechError::TransportError(String::from_str(message));
    TranscribeStreamResponse { kind: StreamResponseKind::Error(e.message()), is_final: false }
}

/// The transcription service as the wire protocol sees it: file-mode
/// requests in, responses out, and whole inbound streams folded into one
/// final response.
pub struct TranscriptionServiceImpl<E: TranscriptionEngine> {
    pub service: TranscriptionService<E>,
}

impl<E: TranscriptionEngine> TranscriptionServiceImpl<E> {
    pub fn new(service: TranscriptionService<E>) -> (r: TranscriptionServiceImpl<E>)
        ensures
            r.service == service,
    {
        TranscriptionServiceImpl { service }
    }

    /// Serve one file-mode request. Failures of any kind become a structured
    /// failure response with an empty text; the call itself completes.
    pub fn transcribe_file(&mut self, request: &TranscribeFileRequest) -> (resp:
        TranscribeFileResponse)
        ensures
            final(self).service.dictionary == old(self).service.dictionary,
            final(self).service.rules == old(self).service.rules,
            resp.success ==> resp.error@ == Seq::<char>::empty(),
            !resp.success ==> resp.text@ == Seq::<char>::empty(),
            resp.success ==> exists|raw: Seq<char>|
                resp.text@ == old(self).service.applied_correction(raw),
            old(self).service.engine_loaded ==> match read_wav_samples_spec(
                request.audio_data@,
            ) {
                Err(e0) => !resp.success && resp.error@ == e0.spec_message(),
                Ok(_) => resp.success || exists|m: Seq<char>|
                    resp.error@ == "inference failed: "@ + m,
            },
    {
        match self.service.transcribe_audio_bytes(&request.audio_data) {
            Ok(t) => TranscribeFileResponse { text: t, success: true, error: String::new() },
            Err(e) => TranscribeFileResponse {
                text: String::new(),
                success: false,
                error: e.message(),
            },
        }
    }

    /// Fold one whole inbound stream into at most one final response:
    /// fragments are gathered in arrival order until the end marker (or the
    /// end of the stream), then transcribed once. A stream that carried no
    /// end marker and no audio yields no response at all.
    pub fn handle_stream(&mut self, requests: Vec<StreamRequest>) -> (r: Option<
        TranscribeStreamResponse,
    >)
        ensures
            final(self).service.dictionary == old(self).service.dictionary,
            final(self).service.rules == old(self).service.rules,
            r is Some <==> gathered(requests@, 0).len() > 0 || saw_eos(requests@, 0),
            r matches Some(resp) ==> resp.is_final,
            r matches Some(resp) ==> match resp.kind {
                StreamResponseKind::FinalText(t) => exists|raw: Seq<char>|
                    t@ == old(self).service.applied_correction(raw),
                StreamResponseKind::Error(_) => true,
                StreamResponseKind::PartialText(_) => false,
            },
            old(self).service.engine_loaded && (gathered(requests@, 0).len() > 0 || saw_eos(
                requests@,
                0,
            )) ==> match read_wav_samples_spec(gathered(requests@, 0)) {
                Err(e0) => r matches Some(resp) && resp.kind matches StreamResponseKind::Error(m)
                    && m@ == e0.spec_message(),
                Ok(_) => true,
            },
    {
        let ghost orig = requests@;
        let mut reqs = requests;
        let mut session = StreamingSession::new();
        loop
            invariant_except_break
                !session.ended,
                gathered(orig, 0) == session.buffer@ + gathered(
                    orig,
                    orig.len() - reqs@.len(),
                ),
                saw_eos(orig, 0) == saw_eos(orig, orig.len() - reqs@.len()),
            invariant
                reqs@.len() <= orig.len(),
                reqs@ == orig.subrange(
                    orig.len() - reqs@.len(),
                    orig.len() as int,
                ),
            ensures
                gathered(orig, 0) == session.buffer@,
                saw_eos(orig, 0) == session.ended,
            decreases reqs@.len(),
        {
            let ghost j = orig.len() - reqs@.len();
            if reqs.len() == 0 {
                proof {
                    assert(gathered(orig, 0) =~= session.buffer@);
                }
                break ;
            }
            let req = reqs.remove(0);
            proof {
                assert(req == orig[j]);
                assert(reqs@ =~= orig.subrange(j + 1, orig.len() as int));
            }
            let ghost buf_before = session.buffer@;
            let done = session.accept(req);
            proof {
                match orig[j] {
                    StreamRequest::AudioChunk(c) => {
                        assert(buf_before + (c@ + gathered(orig, j + 1)) =~= (buf_before + c@)
                            + gathered(orig, j + 1));
                    },
                    _ => {},
                }
            }
            if done {
                proof {
                    assert(gathered(orig, j) =~= Seq::<u8>::empty());
                    assert(gathered(orig, 0) =~= session.buffer@);
                }
                break ;
            }
        }
        if session.should_process() {
            match self.service.transcribe_audio_bytes(&session.buffer) {
                Ok(t) => Some(
                    TranscribeStreamResponse {
                        kind: StreamResponseKind::FinalText(t),
                        is_final: true,
                    },
                ),
                Err(e) => Some(
                    TranscribeStreamResponse {
                        kind: StreamResponseKind::Error(e.message()),
                        is_final: true,
                    },
                ),
            }
        } else {
            None
        }
    }
}

/// A synthesis request: a text fragment, and whether it ends the utterance.
pub struct SynthesizeTextRequest {
    pub text: String,
    pub is_final: bool,
}

/// A synthesis response: WAV bytes for the fragment (empty when there was
/// nothing to say), the request's final flag echoed back, and on failure an
/// empty buffer with the error described.
pub struct SynthesizeTextResponse {
    pub audio_data: Vec<u8>,
    pub success: bool,
    pub error: String,
    pub is_final: bool,
}

/// The synthesis stream as the wire protocol sees it: text fragments in, WAV
/// bytes out, one response per request.
pub struct SynthesisServiceImpl<E: SynthesisEngine> {
    pub stream: SynthesisStream<E>,
}

impl<E: SynthesisEngine> SynthesisServiceImpl<E> {
    pub fn new(stream: SynthesisStream<E>) -> (r: SynthesisServiceImpl<E>)
        ensures
            r.stream == stream,
    {
        SynthesisServiceImpl { stream }
    }

    /// Serve one synthesis request: the fragment joins whatever text is
    /// still pending, and the whole of it is synthesized in one engine call
    /// — marked final when the request is — and encoded as WAV bytes. With
    /// nothing pending and an empty fragment, the engine is not consulted
    /// and the bytes are empty.
    pub fn synthesize(&mut self, request: &SynthesizeTextRequest) -> (resp:
        SynthesizeTextResponse)
        ensures
            resp.is_final == request.is_final,
            resp.success ==> resp.error@ == Seq::<char>::empty(),
            !resp.success ==> resp.audio_data@ == Seq::<u8>::empty(),
            old(self).stream.text_buffer@ + request.text@ == Seq::<char>::empty() ==> resp.success
                && resp.audio_data@ == Seq::<u8>::empty() && final(self).stream.synth_calls
                == old(self).stream.synth_calls,
            (old(self).stream.text_buffer@ + request.text@).len() > 0 ==> final(self).stream.synth_calls@
                == old(self).stream.synth_calls@ + 1 && final(self).stream.last_input@
                == old(self).stream.text_buffer@ + request.text@ && final(self).stream.last_final@
                == request.is_final && final(self).stream.text_buffer@ == Seq::<char>::empty(),
            resp.success && (old(self).stream.text_buffer@ + request.text@).len() > 0 ==> exists|
                s: Seq<i16>,
                rate: u32,
            |
                36 + 2 * s.len() <= u32::MAX && 2 * rate <= u32::MAX && resp.audio_data@
                    == encode_wav_spec(s, rate) && final(self).stream.sample_rate == rate,
    {
        let pushed = self.stream.push_text(request.text.as_str());
        match pushed {
            Ok(_) => {},
            Err(_) => {},
        }
        let out = if request.is_final {
            self.stream.finalize()
        } else {
            self.stream.flush()
        };
        match out {
            Ok(b) => SynthesizeTextResponse {
                audio_data: b,
                success: true,
                error: String::new(),
                is_final: request.is_final,
            },
            Err(e) => SynthesizeTextResponse {
                audio_data: Vec::new(),
                success: false,
                error: e.message(),
                is_final: request.is_final,
            },
        }
    }
}

} // verus!
