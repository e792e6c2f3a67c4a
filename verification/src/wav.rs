use vstd::prelude::*;
use vstd::arithmetic::div_mod::*;
use crate::errors::SpeechError;

verus! {

/// The two little-endian bytes of a 16-bit value.
pub open spec fn u16_le(x: u16) -> Seq<u8> {
    seq![(x % 256) as u8, (x / 256) as u8]
}

/// The 16-bit value two little-endian bytes encode.
pub open spec fn u16_of_le(lo: u8, hi: u8) -> u16 {
    (lo + 256 * hi) as u16
}

/// The four little-endian bytes of a 32-bit value.
pub open spec fn u32_le(x: u32) -> Seq<u8> {
    u16_le((x % 0x10000) as u16) + u16_le((x / 0x10000) as u16)
}

/// The 32-bit value four little-endian bytes encode.
pub open spec fn u32_of_le(b0: u8, b1: u8, b2: u8, b3: u8) -> u32 {
    (u16_of_le(b0, b1) + 0x10000 * u16_of_le(b2, b3)) as u32
}

/// The two's-complement bit pattern of a signed 16-bit sample.
pub open spec fn i16_bits(s: i16) -> u16 {
    ((s as int) % 0x10000) as u16
}

/// The signed 16-bit sample a two's-complement bit pattern stands for.
pub open spec fn i16_of_bits(u: u16) -> i16 {
    if u < 0x8000 {
        u as i16
    } else {
        (u - 0x10000) as i16
    }
}

/// The little-endian byte pair of a signed 16-bit sample.
pub open spec fn i16_le(s: i16) -> Seq<u8> {
    u16_le(i16_bits(s))
}

pub proof fn lemma_u16_le_round(x: u16)
    ensures
        u16_le(x).len() == 2,
        u16_of_le(u16_le(x)[0], u16_le(x)[1]) == x,
{
    lemma_fundamental_div_mod(x as int, 256);
}

pub proof fn lemma_u32_le_round(x: u32)
    ensures
        u32_le(x).len() == 4,
        u32_of_le(u32_le(x)[0], u32_le(x)[1], u32_le(x)[2], u32_le(x)[3]) == x,
{
    let lo = (x % 0x10000) as u16;
    let hi = (x / 0x10000) as u16;
    lemma_u16_le_round(lo);
    lemma_u16_le_round(hi);
    lemma_fundamental_div_mod(x as int, 0x10000);
}

pub proof fn lemma_i16_bits_round(s: i16)
    ensures
        i16_of_bits(i16_bits(s)) == s,
{
    if s >= 0 {
        lemma_small_mod(s as nat, 0x10000);
    } else {
        lemma_mod_sub_multiples_vanish((s as int) + 0x10000, 0x10000);
        lemma_small_mod(((s as int) + 0x10000) as nat, 0x10000);
    }
}

/// The raw 16-bit PCM data section: each sample as a little-endian byte pair,
/// in order.
pub open spec fn pcm16_bytes(samples: Seq<i16>) -> Seq<u8> {
    Seq::new(
        (2 * samples.len()) as nat,
        |k: int|
            if k % 2 == 0 {
                i16_le(samples[k / 2])[0]
            } else {
                i16_le(samples[k / 2])[1]
            },
    )
}

proof fn lemma_pcm16_bytes_push(samples: Seq<i16>, i: int)
    requires
        0 <= i < samples.len(),
    ensures
        pcm16_bytes(samples.take(i + 1)) == pcm16_bytes(samples.take(i)) + i16_le(samples[i]),
{
    let l = pcm16_bytes(samples.take(i + 1));
    let r = pcm16_bytes(samples.take(i)) + i16_le(samples[i]);
    assert forall|k: int| 0 <= k < l.len() implies l[k] == r[k] by {
        lemma_fundamental_div_mod(k, 2);
        lemma_mod_bound(k, 2);
    }
    assert(l =~= r);
}

/// The 44-byte canonical WAV header for a mono, 16-bit integer PCM stream of
/// `n` samples at `rate` Hz: the RIFF magic and size, the `fmt ` chunk
/// (format tag 1, one channel, the byte rate and block alignment of 16-bit
/// mono data), and the `data` chunk header.
pub open spec fn wav_header(n: int, rate: u32) -> Seq<u8>
    recommends
        0 <= n,
        36 + 2 * n <= u32::MAX,
        2 * rate <= u32::MAX,
{
    seq![0x52u8, 0x49u8, 0x46u8, 0x46u8] + u32_le((36 + 2 * n) as u32) + seq![
        0x57u8,
        0x41u8,
        0x56u8,
        0x45u8,
        0x66u8,
        0x6du8,
        0x74u8,
        0x20u8,
        16u8,
        0u8,
        0u8,
        0u8,
        1u8,
        0u8,
        1u8,
        0u8,
    ] + u32_le(rate) + u32_le((2 * rate) as u32) + seq![
        2u8,
        0u8,
        16u8,
        0u8,
        0x64u8,
        0x61u8,
        0x74u8,
        0x61u8,
    ] + u32_le((2 * n) as u32)
}

/// A complete WAV byte buffer: the canonical header followed by the samples
/// as 16-bit little-endian PCM.
pub open spec fn encode_wav_spec(samples: Seq<i16>, rate: u32) -> Seq<u8>
    recommends
        36 + 2 * samples.len() <= u32::MAX,
        2 * rate <= u32::MAX,
{
    wav_header(samples.len() as int, rate) + pcm16_bytes(samples)
}

/// The two's-complement bit pattern of a sample, as executable code.
pub fn i16_bits_exec(s: i16) -> (u: u16)
    ensures
        u == i16_bits(s),
{
    if s >= 0 {
        s as u16
    } else {
        proof {
            lemma_mod_sub_multiples_vanish((s as int) + 0x10000, 0x10000);
            lemma_small_mod(((s as int) + 0x10000) as nat, 0x10000);
        }
        ((s as i32) + 0x10000) as u16
    }
}

/// The sample a two's-complement bit pattern stands for, as executable code.
pub fn i16_of_bits_exec(u: u16) -> (s: i16)
    ensures
        s == i16_of_bits(u),
{
    if u < 0x8000 {
        u as i16
    } else {
        ((u as i32) - 0x10000) as i16
    }
}

fn push_u16_le(v: &mut Vec<u8>, x: u16)
    ensures
        final(v)@ == old(v)@ + u16_le(x),
{
    v.push((x % 256) as u8);
    v.push((x / 256) as u8);
    assert(v@ =~= old(v)@ + u16_le(x));
}

fn push_u32_le(v: &mut Vec<u8>, x: u32)
    ensures
        final(v)@ == old(v)@ + u32_le(x),
{
    push_u16_le(v, (x % 0x10000) as u16);
    push_u16_le(v, (x / 0x10000) as u16);
    assert(v@ =~= old(v)@ + u32_le(x));
}

/// Encode samples as a mono, 16-bit integer PCM WAV byte buffer at the given
/// sample rate. The size bounds are those the format's 32-bit size fields
/// force.
#[verifier::rlimit(60)]
pub fn encode_wav(samples: &Vec<i16>, sample_rate: u32) -> (out: Vec<u8>)
    requires
        36 + 2 * samples@.len() <= u32::MAX,
        2 * sample_rate <= u32::MAX,
    ensures
        out@ == encode_wav_spec(samples@, sample_rate),
{
    let n = samples.len();
    let data_len: u32 = 2 * (n as u32);
    let mut out: Vec<u8> = Vec::new();
    out.push(0x52);
    out.push(0x49);
    out.push(0x46);
    out.push(0x46);
    push_u32_le(&mut out, 36 + data_len);
    out.push(0x57);
    out.push(0x41);
    out.push(0x56);
    out.push(0x45);
    out.push(0x66);
    out.push(0x6d);
    out.push(0x74);
    out.push(0x20);
    out.push(16);
    out.push(0);
    out.push(0);
    out.push(0);
    out.push(1);
    out.push(0);
    out.push(1);
    out.push(0);
    push_u32_le(&mut out, sample_rate);
    push_u32_le(&mut out, 2 * sample_rate);
    out.push(2);
    out.push(0);
    out.push(16);
    out.push(0);
    out.push(0x64);
    out.push(0x61);
    out.push(0x74);
    out.push(0x61);
    push_u32_le(&mut out, data_len);
    assert(out@ =~= wav_header(samples@.len() as int, sample_rate));
    let ghost header = out@;
    let mut i: usize = 0;
    while i < n
        invariant
            i <= n,
            n == samples@.len(),
            out@ == header + pcm16_bytes(samples@.take(i as int)),
        decreases n - i,
    {
        let bits = i16_bits_exec(samples[i]);
        push_u16_le(&mut out, bits);
        proof {
            lemma_pcm16_bytes_push(samples@, i as int);
            assert(out@ =~= header + pcm16_bytes(samples@.take(i + 1)));
        }
        i += 1;
    }
    proof {
        assert(samples@.take(n as int) =~= samples@);
        assert(out@ =~= encode_wav_spec(samples@, sample_rate));
    }
    out
}

/// Four bytes of a buffer, read as a chunk identifier.
pub open spec fn chunk_id_at(bytes: Seq<u8>, pos: int) -> Seq<u8> {
    bytes.subrange(pos, pos + 4)
}

/// A 16-bit little-endian field of a buffer.
pub open spec fn u16_at(bytes: Seq<u8>, pos: int) -> u16 {
    u16_of_le(bytes[pos], bytes[pos + 1])
}

/// A 32-bit little-endian field of a buffer.
pub open spec fn u32_at(bytes: Seq<u8>, pos: int) -> u32 {
    u32_of_le(bytes[pos], bytes[pos + 1], bytes[pos + 2], bytes[pos + 3])
}

pub open spec fn riff_id() -> Seq<u8> {
    seq![0x52u8, 0x49u8, 0x46u8, 0x46u8]
}

pub open spec fn wave_id() -> Seq<u8> {
    seq![0x57u8, 0x41u8, 0x56u8, 0x45u8]
}

pub open spec fn fmt_id() -> Seq<u8> {
    seq![0x66u8, 0x6du8, 0x74u8, 0x20u8]
}

pub open spec fn data_id() -> Seq<u8> {
    seq![0x64u8, 0x61u8, 0x74u8, 0x61u8]
}

/// Walk the chunk list that starts at `pos`, remembering the body position of
/// the first `fmt ` chunk seen, until the `data` chunk. Yields the `fmt `
/// body position, the data body position and the data length, or nothing if
/// the chunk list is malformed or either chunk is missing. Chunks with odd
/// sizes are padded to even offsets, as the format prescribes.
pub open spec fn scan_chunks(bytes: Seq<u8>, pos: int, fmt: Option<int>) -> Option<(int, int, int)>
    decreases bytes.len() - pos,
{
    if pos < 0 || pos + 8 > bytes.len() {
        None
    } else {
        let size = u32_at(bytes, pos + 4) as int;
        let body = pos + 8;
        let next = body + size + size % 2;
        if chunk_id_at(bytes, pos) == data_id() {
            if body + size > bytes.len() {
                None
            } else {
                match fmt {
                    Option::Some(f) => Option::Some((f, body, size)),
                    Option::None => None,
                }
            }
        } else if chunk_id_at(bytes, pos) == fmt_id() {
            if size < 16 || next > bytes.len() {
                None
            } else {
                scan_chunks(bytes, next, if fmt is Some { fmt } else { Option::Some(body) })
            }
        } else {
            if next > bytes.len() {
                None
            } else {
                scan_chunks(bytes, next, fmt)
            }
        }
    }
}

/// What a decoded WAV buffer holds, for specification purposes.
pub struct WavInfo {
    pub channels: u16,
    pub sample_rate: u32,
    pub samples: Seq<i16>,
}

/// Decode a WAV byte buffer. A buffer without the RIFF/WAVE magic or a
/// well-formed chunk list fails as unreadable; a `fmt ` chunk that does not
/// announce 16-bit integer PCM with at least one channel fails as an
/// unsupported format; otherwise the samples are the data chunk's 16-bit
/// little-endian values (a trailing odd byte is ignored).
pub open spec fn decode_wav_spec(bytes: Seq<u8>) -> Result<WavInfo, SpeechError> {
    if bytes.len() < 12 || chunk_id_at(bytes, 0) != riff_id() || chunk_id_at(bytes, 8)
        != wave_id() {
        Err(SpeechError::IoError)
    } else {
        match scan_chunks(bytes, 12, Option::None) {
            Option::None => Err(SpeechError::IoError),
            Option::Some((f, d, dlen)) => {
                let format = u16_at(bytes, f);
                let channels = u16_at(bytes, f + 2);
                let rate = u32_at(bytes, f + 4);
                let bits = u16_at(bytes, f + 14);
                if format != 1 || bits != 16 || channels == 0 {
                    Err(SpeechError::UnsupportedFormat)
                } else {
                    Ok(
                        WavInfo {
                            channels,
                            sample_rate: rate,
                            samples: Seq::new(
                                (dlen / 2) as nat,
                                |i: int| i16_of_bits(u16_at(bytes, d + 2 * i)),
                            ),
                        },
                    )
                }
            },
        }
    }
}

/// A decoded WAV buffer: its channel count, sample rate, and interleaved
/// 16-bit samples.
#[derive(Debug)]
pub struct WavData {
    pub channels: u16,
    pub sample_rate: u32,
    pub samples: Vec<i16>,
}

impl WavData {
    /// The decoded contents, as specification values.
    pub open spec fn as_info(&self) -> WavInfo {
        WavInfo { channels: self.channels, sample_rate: self.sample_rate, samples: self.samples@ }
    }
}

fn read_u16_at(bytes: &Vec<u8>, pos: usize) -> (r: u16)
    requires
        pos + 2 <= bytes@.len(),
    ensures
        r == u16_at(bytes@, pos as int),
{
    let _len = bytes.len();
    (bytes[pos] as u16) + 256 * (bytes[pos + 1] as u16)
}

fn read_u32_at(bytes: &Vec<u8>, pos: usize) -> (r: u32)
    requires
        pos + 4 <= bytes@.len(),
    ensures
        r == u32_at(bytes@, pos as int),
{
    let _len = bytes.len();
    let lo = read_u16_at(bytes, pos);
    let hi = read_u16_at(bytes, pos + 2);
    (lo as u32) + 0x10000 * (hi as u32)
}

fn chunk_is(bytes: &Vec<u8>, pos: usize, a: u8, b: u8, c: u8, d: u8) -> (r: bool)
    requires
        pos + 4 <= bytes@.len(),
    ensures
        r == (chunk_id_at(bytes@, pos as int) == seq![a, b, c, d]),
{
    let _len = bytes.len();
    let hit = bytes[pos] == a && bytes[pos + 1] == b && bytes[pos + 2] == c && bytes[pos + 3] == d;
    proof {
        let id = chunk_id_at(bytes@, pos as int);
        let lit = seq![a, b, c, d];
        if hit {
            assert(id =~= lit);
        } else {
            assert(id[0] == bytes@[pos as int] && id[1] == bytes@[pos as int + 1] && id[2]
                == bytes@[pos as int + 2] && id[3] == bytes@[pos as int + 3]);
        }
    }
    hit
}

/// Decode a WAV byte buffer into its channel count, sample rate and 16-bit
/// samples. Fails exactly as `decode_wav_spec` describes: `IoError` on a
/// malformed buffer, `UnsupportedFormat` when the format is not 16-bit
/// integer PCM with at least one channel.
pub fn decode_wav(bytes: &Vec<u8>) -> (r: Result<WavData, SpeechError>)
    ensures
        match r {
            Ok(w) => decode_wav_spec(bytes@) == Ok::<WavInfo, SpeechError>(w.as_info()),
            Err(e) => decode_wav_spec(bytes@) == Err::<WavInfo, SpeechError>(e),
        },
{
    let len = bytes.len();
    if len < 12 {
        return Err(SpeechError::IoError);
    }
    if !chunk_is(bytes, 0, 0x52, 0x49, 0x46, 0x46) || !chunk_is(bytes, 8, 0x57, 0x41, 0x56, 0x45) {
        return Err(SpeechError::IoError);
    }
    let mut pos: usize = 12;
    let mut fmt_pos: Option<usize> = Option::None;
    loop
        invariant
            12 <= pos <= len,
            len == bytes@.len(),
            chunk_id_at(bytes@, 0) == riff_id(),
            chunk_id_at(bytes@, 8) == wave_id(),
            scan_chunks(bytes@, 12, Option::None) == scan_chunks(
                bytes@,
                pos as int,
                match fmt_pos {
                    Option::Some(f) => Option::Some(f as int),
                    Option::None => Option::None,
                },
            ),
            match fmt_pos {
                Option::Some(f) => f + 16 <= len,
                Option::None => true,
            },
        decreases len - pos,
    {
        let ghost fmt_ghost: Option<int> = match fmt_pos {
            Option::Some(f) => Option::Some(f as int),
            Option::None => Option::None,
        };
        if len - pos < 8 {
            return Err(SpeechError::IoError);
        }
        let size32 = read_u32_at(bytes, pos + 4);
        let size = size32 as usize;
        let body = pos + 8;
        if chunk_is(bytes, pos, 0x64, 0x61, 0x74, 0x61) {
            if size > len - body {
                return Err(SpeechError::IoError);
            }
            match fmt_pos {
                Option::None => {
                    return Err(SpeechError::IoError);
                },
                Option::Some(f) => {
                    proof {
                        assert(scan_chunks(bytes@, pos as int, fmt_ghost) == Option::Some(
                            (f as int, body as int, size as int),
                        ));
                    }
                    let format = read_u16_at(bytes, f);
                    let channels = read_u16_at(bytes, f + 2);
                    let rate = read_u32_at(bytes, f + 4);
                    let bits = read_u16_at(bytes, f + 14);
                    if format != 1 || bits != 16 || channels == 0 {
                        return Err(SpeechError::UnsupportedFormat);
                    }
                    let n = size / 2;
                    let mut samples: Vec<i16> = Vec::new();
                    let mut i: usize = 0;
                    while i < n
                        invariant
                            i <= n,
                            n == size / 2,
                            body + size <= len,
                            len == bytes@.len(),
                            samples@.len() == i,
                            forall|t: int|
                                0 <= t < i ==> samples@[t] == i16_of_bits(
                                    u16_at(bytes@, body + 2 * t),
                                ),
                        decreases n - i,
                    {
                        let u = read_u16_at(bytes, body + 2 * i);
                        samples.push(i16_of_bits_exec(u));
                        i += 1;
                    }
                    let w = WavData { channels, sample_rate: rate, samples };
                    proof {
                        assert(w.as_info().samples =~= Seq::new(
                            (size as int / 2) as nat,
                            |t: int| i16_of_bits(u16_at(bytes@, body + 2 * t)),
                        ));
                    }
                    return Ok(w);
                },
            }
        } else if chunk_is(bytes, pos, 0x66, 0x6d, 0x74, 0x20) {
            if size < 16 || size > len - body {
                return Err(SpeechError::IoError);
            }
            let pad = size % 2;
            if pad > len - body - size {
                return Err(SpeechError::IoError);
            }
            if fmt_pos.is_none() {
                fmt_pos = Option::Some(body);
            }
            pos = body + size + pad;
        } else {
            if size > len - body || (size % 2) > len - body - size {
                return Err(SpeechError::IoError);
            }
            pos = body + size + size % 2;
        }
    }
}

/// Bounds that hold of whatever a successful chunk scan yields: the chunk
/// positions lie inside the buffer and the data length fits its 32-bit size
/// field.
pub proof fn lemma_scan_chunks_bounds(bytes: Seq<u8>, pos: int, fmt: Option<int>)
    requires
        match fmt {
            Option::Some(f) => 0 <= f && f + 16 <= bytes.len(),
            Option::None => true,
        },
    ensures
        match scan_chunks(bytes, pos, fmt) {
            Option::Some((f, d, l)) => 0 <= f && f + 16 <= bytes.len() && 0 <= d && 0 <= l
                <= u32::MAX && d + l <= bytes.len(),
            Option::None => true,
        },
    decreases bytes.len() - pos,
{
    if pos < 0 || pos + 8 > bytes.len() {
    } else {
        let size = u32_at(bytes, pos + 4) as int;
        let body = pos + 8;
        let next = body + size + size % 2;
        if chunk_id_at(bytes, pos) == data_id() {
        } else if chunk_id_at(bytes, pos) == fmt_id() {
            if size < 16 || next > bytes.len() {
            } else {
                lemma_scan_chunks_bounds(
                    bytes,
                    next,
                    if fmt is Some {
                        fmt
                    } else {
                        Option::Some(body)
                    },
                );
            }
        } else {
            if next > bytes.len() {
            } else {
                lemma_scan_chunks_bounds(bytes, next, fmt);
            }
        }
    }
}

/// A successfully decoded buffer holds at most `u32::MAX / 2` samples: the
/// data chunk's length is a 32-bit field.
pub proof fn lemma_decode_samples_len(bytes: Seq<u8>)
    ensures
        match decode_wav_spec(bytes) {
            Ok(info) => info.samples.len() <= 0x8000_0000,
            Err(_) => true,
        },
{
    if bytes.len() < 12 || chunk_id_at(bytes, 0) != riff_id() || chunk_id_at(bytes, 8)
        != wave_id() {
    } else {
        lemma_scan_chunks_bounds(bytes, 12, Option::None);
    }
}

/// Decoding the encoder's own output recovers the sample sequence exactly,
/// with one channel and the encoded rate.
#[verifier::rlimit(100)]
pub proof fn lemma_wav_round_trip(samples: Seq<i16>, rate: u32)
    requires
        36 + 2 * samples.len() <= u32::MAX,
        2 * rate <= u32::MAX,
    ensures
        decode_wav_spec(encode_wav_spec(samples, rate)) == Ok::<WavInfo, SpeechError>(
            WavInfo { channels: 1, sample_rate: rate, samples },
        ),
{
    let n = samples.len() as int;
    let enc = encode_wav_spec(samples, rate);
    let h = wav_header(n, rate);
    lemma_u32_le_round((36 + 2 * n) as u32);
    lemma_u32_le_round(rate);
    lemma_u32_le_round((2 * rate) as u32);
    lemma_u32_le_round((2 * n) as u32);
    assert(h.len() == 44);
    assert(enc.len() == 44 + 2 * n);
    assert(chunk_id_at(enc, 0) =~= riff_id());
    assert(chunk_id_at(enc, 8) =~= wave_id());
    assert(chunk_id_at(enc, 12) =~= fmt_id());
    assert(chunk_id_at(enc, 36) =~= data_id());
    // the fmt chunk announces size 16
    assert(u32_at(enc, 16) == 16) by {
        lemma_u16_le_round(16);
        lemma_u16_le_round(0);
        assert(enc[16] == 16 && enc[17] == 0 && enc[18] == 0 && enc[19] == 0);
    }
    // the data chunk announces the sample byte count
    assert(u32_at(enc, 40) as int == 2 * n) by {
        assert(enc[40] == u32_le((2 * n) as u32)[0]);
        assert(enc[41] == u32_le((2 * n) as u32)[1]);
        assert(enc[42] == u32_le((2 * n) as u32)[2]);
        assert(enc[43] == u32_le((2 * n) as u32)[3]);
    }
    assert(chunk_id_at(enc, 12) != data_id()) by {
        assert(chunk_id_at(enc, 12)[0] != data_id()[0]);
    }
    assert(scan_chunks(enc, 12, Option::None) == scan_chunks(enc, 36, Option::Some(20)));
    assert(chunk_id_at(enc, 36) == data_id());
    assert(scan_chunks(enc, 36, Option::Some(20)) == Option::Some((20int, 44int, 2 * n)));
    // the fmt fields
    assert(u16_at(enc, 20) == 1 && u16_at(enc, 22) == 1 && u16_at(enc, 34) == 16) by {
        assert(enc[20] == 1 && enc[21] == 0 && enc[22] == 1 && enc[23] == 0);
        assert(enc[34] == 16 && enc[35] == 0);
    }
    assert(u32_at(enc, 24) == rate) by {
        assert(enc[24] == u32_le(rate)[0]);
        assert(enc[25] == u32_le(rate)[1]);
        assert(enc[26] == u32_le(rate)[2]);
        assert(enc[27] == u32_le(rate)[3]);
    }
    let dec = Seq::new(((2 * n) / 2) as nat, |i: int| i16_of_bits(u16_at(enc, 44 + 2 * i)));
    assert forall|i: int| 0 <= i < n implies dec[i] == samples[i] by {
        assert(enc[44 + 2 * i] == pcm16_bytes(samples)[2 * i]);
        assert(enc[44 + 2 * i + 1] == pcm16_bytes(samples)[2 * i + 1]);
        assert((2 * i) % 2 == 0 && (2 * i) / 2 == i && (2 * i + 1) % 2 == 1 && (2 * i + 1) / 2
            == i) by {
            lemma_fundamental_div_mod_converse(2 * i, 2, i, 0);
            lemma_fundamental_div_mod_converse(2 * i + 1, 2, i, 1);
        }
        lemma_u16_le_round(i16_bits(samples[i]));
        lemma_i16_bits_round(samples[i]);
    }
    assert(dec =~= samples);
}

} // verus!
