use vstd::prelude::*;
use vstd::arithmetic::div_mod::*;
use vstd::arithmetic::mul::*;
use crate::errors::SpeechError;
use crate::wav::{
    decode_wav,
    decode_wav_spec,
    encode_wav_spec,
    lemma_decode_samples_len,
    lemma_wav_round_trip,
    WavInfo,
};

verus! {

/// The sample rate the recognition engine requires, in Hz.
pub const TARGET_SAMPLE_RATE: u32 = 16000;

/// Division that rounds toward zero, as the machine's `/` does on signed
/// operands. `b` must be positive.
pub open spec fn div_trunc(a: int, b: int) -> int
    recommends
        b > 0,
{
    if a >= 0 {
        a / b
    } else {
        -((-a) / b)
    }
}

/// Clamp an integer to the signed 16-bit sample range.
pub open spec fn clamp16(v: int) -> int {
    if v < -0x8000 {
        -0x8000
    } else if v > 0x7fff {
        0x7fff
    } else {
        v
    }
}

/// Clamp a 32-bit value to the signed 16-bit sample range.
pub fn clamp_i16(v: i32) -> (r: i16)
    ensures
        r as int == clamp16(v as int),
{
    if v < -0x8000 {
        -0x8000
    } else if v > 0x7fff {
        0x7fff
    } else {
        v as i16
    }
}

/// Sum of the first `k` channel samples of frame `j` of an interleaved buffer.
pub open spec fn frame_sum(input: Seq<i16>, ch: int, j: int, k: int) -> int
    decreases k,
{
    if k <= 0 {
        0
    } else {
        frame_sum(input, ch, j, k - 1) + input[j * ch + (k - 1)]
    }
}

/// One downmixed sample: the frame's arithmetic mean, rounded toward zero and
/// clamped to the 16-bit range.
pub open spec fn downmix_frame(input: Seq<i16>, ch: int, j: int) -> int {
    clamp16(div_trunc(frame_sum(input, ch, j, ch), ch))
}

/// Mono mixdown of an interleaved buffer: one averaged sample per complete
/// frame; a trailing incomplete frame is dropped. A single-channel buffer is
/// returned unchanged.
pub open spec fn downmix_spec(input: Seq<i16>, ch: int) -> Seq<i16>
    recommends
        ch >= 1,
{
    if ch <= 1 {
        input
    } else {
        Seq::new((input.len() as int / ch) as nat, |j: int| downmix_frame(input, ch, j) as i16)
    }
}

proof fn lemma_frame_sum_bounds(input: Seq<i16>, ch: int, j: int, k: int)
    requires
        0 <= k,
        0 <= j,
        0 <= j * ch,
        j * ch + k <= input.len(),
    ensures
        -0x8000 * k <= frame_sum(input, ch, j, k) <= 0x7fff * k,
    decreases k,
{
    if k > 0 {
        lemma_frame_sum_bounds(input, ch, j, k - 1);
        assert(-0x8000 * k == -0x8000 * (k - 1) + -0x8000) by {
            lemma_mul_is_distributive_sub(-0x8000, k, 1);
        }
        assert(0x7fff * k == 0x7fff * (k - 1) + 0x7fff) by {
            lemma_mul_is_distributive_sub(0x7fff, k, 1);
        }
    }
}

/// Mix an interleaved multi-channel buffer down to one channel. Each output
/// sample is the arithmetic mean of one frame's channels, rounded toward zero
/// and clamped to the 16-bit range; an incomplete trailing frame is dropped.
pub fn downmix_to_mono(input: &Vec<i16>, channels: u16) -> (out: Vec<i16>)
    requires
        channels >= 1,
    ensures
        out@ == downmix_spec(input@, channels as int),
{
    if channels == 1 {
        let mut out: Vec<i16> = Vec::new();
        let mut i: usize = 0;
        while i < input.len()
            invariant
                i <= input.len(),
                out@ == input@.take(i as int),
            decreases input.len() - i,
        {
            out.push(input[i]);
            assert(out@ =~= input@.take(i + 1));
            i += 1;
        }
        assert(out@ =~= input@);
        return out;
    }
    let ch: usize = channels as usize;
    let n: usize = input.len() / ch;
    let ghost chi: int = ch as int;
    proof {
        lemma_fundamental_div_mod(input@.len() as int, chi);
        lemma_mod_bound(input@.len() as int, chi);
    }
    let mut out: Vec<i16> = Vec::new();
    let mut j: usize = 0;
    while j < n
        invariant
            j <= n,
            ch == channels as usize,
            channels >= 2,
            n == input@.len() as int / chi,
            chi == ch as int,
            input@.len() <= usize::MAX,
            chi * n <= input@.len(),
            out@.len() == j,
            forall|t: int| 0 <= t < j ==> out@[t] == downmix_spec(input@, chi)[t],
        decreases n - j,
    {
        proof {
            lemma_mul_inequality(j as int + 1, n as int, chi);
            lemma_mul_is_commutative(j as int + 1, chi);
            lemma_mul_is_distributive_add(chi, j as int, 1);
            lemma_mul_nonnegative(j as int, chi);
            lemma_mul_is_commutative(j as int, chi);
        }
        // now (j + 1) * ch <= n * ch <= input.len() and j * ch >= 0
        let mut sum: i32 = 0;
        let mut k: usize = 0;
        while k < ch
            invariant
                k <= ch,
                ch == channels as usize,
                chi == ch as int,
                input@.len() <= usize::MAX,
                (j as int) * chi + chi <= input@.len(),
                0 <= (j as int) * chi,
                sum as int == frame_sum(input@, chi, j as int, k as int),
                -0x8000 * (k as int) <= sum as int <= 0x7fff * (k as int),
            decreases ch - k,
        {
            proof {
                lemma_frame_sum_bounds(input@, chi, j as int, k as int + 1);
                assert((j as int) * chi + (k as int) < input@.len());
            }
            sum = sum + input[j * ch + k] as i32;
            k += 1;
        }
        let q: i32 = if sum >= 0 {
            ((sum as u32) / (ch as u32)) as i32
        } else {
            proof {
                lemma_div_is_ordered((0 - sum) as int, 0x8000 * chi, chi);
                lemma_mul_is_commutative(0x8000, chi);
                lemma_div_multiples_vanish(0x8000, chi);
                lemma_div_pos_is_pos((0 - sum) as int, chi);
            }
            -((((-sum) as u32) / (ch as u32)) as i32)
        };
        assert(q as int == div_trunc(sum as int, chi)) by {
            if sum >= 0 {
            } else {
            }
        }
        let avg: i16 = clamp_i16(q);
        proof {
            assert(downmix_spec(input@, chi)[j as int] == avg);
        }
        out.push(avg);
        j += 1;
    }
    assert(out@ =~= downmix_spec(input@, channels as int));
    out
}

/// Number of output samples a resampling from `src` to `dst` produces for
/// `len` input samples: `len * dst / src`, rounded up.
pub open spec fn resample_len(len: int, src: int, dst: int) -> int
    recommends
        src > 0,
{
    (len * dst + src - 1) / src
}

/// The interpolated sample at output index `i`: the fractional source
/// position is `i * src / dst`; the samples on either side of it are mixed
/// linearly by the fractional part, rounding toward zero.
pub open spec fn resample_at(input: Seq<i16>, src: int, dst: int, i: int) -> int
    recommends
        input.len() > 0,
        src > 0,
        dst > 0,
        0 <= i,
{
    let pos = i * src;
    let idx = pos / dst;
    let rem = pos % dst;
    let a = input[idx] as int;
    let b = if idx + 1 < input.len() {
        input[idx + 1] as int
    } else {
        input[input.len() - 1] as int
    };
    a + div_trunc((b - a) * rem, dst)
}

/// Linear-interpolation resampling. An empty input or a zero rate yields an
/// empty output; equal rates return the input unchanged; otherwise the output
/// has `resample_len` samples interpolated at fractional source positions.
pub open spec fn resample_spec(input: Seq<i16>, src: int, dst: int) -> Seq<i16> {
    if input.len() == 0 || src <= 0 || dst <= 0 {
        Seq::empty()
    } else if src == dst {
        input
    } else {
        Seq::new(
            resample_len(input.len() as int, src, dst) as nat,
            |i: int| resample_at(input, src, dst, i) as i16,
        )
    }
}

proof fn lemma_resample_pos_bound(len: int, src: int, dst: int, i: int)
    requires
        len >= 1,
        src >= 1,
        dst >= 1,
        0 <= i < resample_len(len, src, dst),
    ensures
        0 <= i * src <= len * dst - 1,
        0 <= i * src / dst < len,
{
    let q = (len * dst + src - 1) / src;
    lemma_mul_nonnegative(i, src);
    // (q) * src <= len * dst + src - 1
    lemma_fundamental_div_mod(len * dst + src - 1, src);
    lemma_mod_bound(len * dst + src - 1, src);
    lemma_mul_nonnegative(len, dst);
    assert(src * q <= len * dst + src - 1);
    // i <= q - 1, so i * src <= q * src - src <= len * dst - 1
    lemma_mul_inequality(i, q - 1, src);
    lemma_mul_is_distributive_sub_other_way(src, q, 1);
    lemma_mul_is_commutative(q - 1, src);
    lemma_mul_is_commutative(q, src);
    assert(i * src <= len * dst - 1);
    // i * src / dst <= (len * dst - 1) / dst == len - 1
    lemma_div_is_ordered(i * src, len * dst - 1, dst);
    assert(len * dst - 1 == (len - 1) * dst + (dst - 1)) by {
        lemma_mul_is_distributive_sub_other_way(dst, len, 1);
    }
    lemma_fundamental_div_mod_converse(len * dst - 1, dst, len - 1, dst - 1);
    assert((len * dst - 1) / dst == len - 1);
    lemma_div_pos_is_pos(i * src, dst);
}

proof fn lemma_lerp_bounds(a: int, b: int, rem: int, dst: int)
    requires
        -0x8000 <= a <= 0x7fff,
        -0x8000 <= b <= 0x7fff,
        0 <= rem < dst,
    ensures
        b >= a ==> a <= a + div_trunc((b - a) * rem, dst) <= b,
        b < a ==> b <= a + div_trunc((b - a) * rem, dst) <= a,
{
    if b >= a {
        let d = b - a;
        lemma_mul_nonnegative(d, rem);
        lemma_mul_inequality(rem, dst, d);
        lemma_mul_is_commutative(rem, d);
        lemma_mul_is_commutative(dst, d);
        lemma_div_is_ordered(d * rem, d * dst, dst);
        lemma_div_multiples_vanish(d, dst);
        lemma_mul_is_commutative(d, dst);
        lemma_div_pos_is_pos(d * rem, dst);
    } else {
        let d = a - b;
        lemma_mul_nonnegative(d, rem);
        lemma_mul_inequality(rem, dst, d);
        lemma_mul_is_commutative(rem, d);
        lemma_mul_is_commutative(dst, d);
        lemma_div_is_ordered(d * rem, d * dst, dst);
        lemma_div_multiples_vanish(d, dst);
        lemma_mul_is_commutative(d, dst);
        lemma_div_pos_is_pos(d * rem, dst);
        lemma_mul_unary_negation(d, rem);
        assert((b - a) * rem == -(d * rem)) by {
            lemma_mul_is_distributive_sub_other_way(rem, b, a);
            lemma_mul_is_commutative(b - a, rem);
            lemma_mul_is_commutative(d, rem);
        }
    }
}

/// Resample a buffer from `src_hz` to `dst_hz` by linear interpolation.
/// Degenerate inputs (empty buffer, zero rate) yield an empty output; equal
/// rates return the input unchanged.
pub fn resample_linear(input: &Vec<i16>, src_hz: u32, dst_hz: u32) -> (out: Vec<i16>)
    requires
        input@.len() * dst_hz + src_hz <= u64::MAX,
        src_hz > 0 ==> resample_len(input@.len() as int, src_hz as int, dst_hz as int)
            <= usize::MAX,
    ensures
        out@ == resample_spec(input@, src_hz as int, dst_hz as int),
{
    let n: usize = input.len();
    if n == 0 || src_hz == 0 || dst_hz == 0 {
        let out: Vec<i16> = Vec::new();
        assert(out@ =~= resample_spec(input@, src_hz as int, dst_hz as int));
        return out;
    }
    let ghost src: int = src_hz as int;
    let ghost dst: int = dst_hz as int;
    if src_hz == dst_hz {
        let mut out: Vec<i16> = Vec::new();
        let mut i: usize = 0;
        while i < n
            invariant
                i <= n,
                n == input@.len(),
                out@ == input@.take(i as int),
            decreases n - i,
        {
            out.push(input[i]);
            assert(out@ =~= input@.take(i + 1));
            i += 1;
        }
        assert(out@ =~= input@);
        return out;
    }
    let src64: u64 = src_hz as u64;
    let dst64: u64 = dst_hz as u64;
    proof {
        lemma_mul_nonnegative(n as int, dst);
        lemma_div_pos_is_pos(n as int * dst + src - 1, src);
    }
    let out_len: usize = (((n as u64) * dst64 + src64 - 1) / src64) as usize;
    let mut out: Vec<i16> = Vec::new();
    let mut i: usize = 0;
    while i < out_len
        invariant
            i <= out_len,
            n == input@.len(),
            n >= 1,
            src_hz >= 1,
            dst_hz >= 1,
            src_hz != dst_hz,
            src == src_hz as int,
            dst == dst_hz as int,
            src64 == src_hz as u64,
            dst64 == dst_hz as u64,
            n * dst + src <= u64::MAX,
            out_len == resample_len(n as int, src, dst),
            out@.len() == i,
            forall|t: int| 0 <= t < i ==> out@[t] == resample_at(input@, src, dst, t) as i16,
        decreases out_len - i,
    {
        proof {
            lemma_resample_pos_bound(n as int, src, dst, i as int);
        }
        let pos: u64 = (i as u64) * src64;
        let idx: usize = (pos / dst64) as usize;
        let rem: u64 = pos % dst64;
        proof {
            lemma_mod_bound(pos as int, dst);
        }
        let a: i32 = input[idx] as i32;
        let bi: usize = if idx + 1 < n {
            idx + 1
        } else {
            n - 1
        };
        let b: i32 = input[bi] as i32;
        proof {
            lemma_lerp_bounds(a as int, b as int, rem as int, dst);
        }
        let val: i16;
        if b >= a {
            let d: u64 = (b - a) as u64;
            proof {
                lemma_mul_upper_bound(d as int, 0xffff, rem as int, 0xffff_ffff);
                lemma_mul_nonnegative(d as int, rem as int);
            }
            let q: u64 = d * rem / dst64;
            val = (a + q as i32) as i16;
        } else {
            let d: u64 = (a - b) as u64;
            proof {
                lemma_mul_upper_bound(d as int, 0xffff, rem as int, 0xffff_ffff);
                lemma_mul_nonnegative(d as int, rem as int);
                lemma_mul_unary_negation(d as int, rem as int);
                assert(((b - a) as int) * (rem as int) == -((d as int) * (rem as int))) by {
                    lemma_mul_is_distributive_sub_other_way(rem as int, b as int, a as int);
                    lemma_mul_is_commutative((b - a) as int, rem as int);
                    lemma_mul_is_commutative(d as int, rem as int);
                }
            }
            let q: u64 = d * rem / dst64;
            val = (a - q as i32) as i16;
        }
        assert(val as int == resample_at(input@, src, dst, i as int));
        out.push(val);
        i += 1;
    }
    assert(out@ =~= resample_spec(input@, src, dst));
    out
}

/// Resampling a buffer to its own rate returns it unchanged.
pub proof fn lemma_resample_identity(input: Seq<i16>, rate: int)
    requires
        rate >= 1,
    ensures
        resample_spec(input, rate, rate) == input,
{
    if input.len() == 0 {
        assert(resample_spec(input, rate, rate) =~= input);
    }
}

/// Resampling is a pure function: two results computed from the same input
/// and the same rates are identical.
pub proof fn lemma_resample_deterministic(
    input: Seq<i16>,
    src: int,
    dst: int,
    r1: Seq<i16>,
    r2: Seq<i16>,
)
    requires
        r1 == resample_spec(input, src, dst),
        r2 == resample_spec(input, src, dst),
    ensures
        r1 == r2,
{
}

/// Whether the resampled length fits the machine's vector size limit. Always
/// true of an empty buffer or a zero rate.
pub open spec fn resample_fits(len: int, rate: u32) -> bool {
    rate > 0 ==> resample_len(len, rate as int, TARGET_SAMPLE_RATE as int) <= usize::MAX
}

/// Normalization of a WAV byte buffer: decode it, mix it down to one
/// channel, and resample it to the engine's 16 kHz. Decode failures pass
/// through; a buffer whose resampled length would not fit in memory is
/// rejected as unreadable.
pub open spec fn read_wav_samples_spec(bytes: Seq<u8>) -> Result<Seq<i16>, SpeechError> {
    match decode_wav_spec(bytes) {
        Err(e) => Err(e),
        Ok(info) => {
            let mono = downmix_spec(info.samples, info.channels as int);
            if resample_fits(mono.len() as int, info.sample_rate) {
                Ok(resample_spec(mono, info.sample_rate as int, TARGET_SAMPLE_RATE as int))
            } else {
                Err(SpeechError::IoError)
            }
        },
    }
}

/// Decode a WAV byte buffer and normalize it for the recognition engine:
/// 16-bit integer PCM only, mixed down to one channel, resampled to 16 kHz.
/// Degenerate audio (no samples, a zero sample rate) yields an empty buffer,
/// not an error.
pub fn read_wav_samples(bytes: &Vec<u8>) -> (r: Result<Vec<i16>, SpeechError>)
    ensures
        match r {
            Ok(s) => read_wav_samples_spec(bytes@) == Ok::<Seq<i16>, SpeechError>(s@),
            Err(e) => read_wav_samples_spec(bytes@) == Err::<Seq<i16>, SpeechError>(e),
        },
{
    proof {
        lemma_decode_samples_len(bytes@);
    }
    match decode_wav(bytes) {
        Err(e) => Err(e),
        Ok(w) => {
            let mono = downmix_to_mono(&w.samples, w.channels);
            proof {
                if w.channels > 1 {
                    lemma_div_nonincreasing(w.samples@.len() as int, w.channels as int);
                    lemma_div_pos_is_pos(w.samples@.len() as int, w.channels as int);
                }
                assert(mono@.len() <= 0x8000_0000);
            }
            let rate = w.sample_rate;
            if rate > 0 && mono.len() > 0 {
                let ol: u64 = ((mono.len() as u64) * (TARGET_SAMPLE_RATE as u64) + (rate as u64)
                    - 1) / (rate as u64);
                if ol > usize::MAX as u64 {
                    return Err(SpeechError::IoError);
                }
            }
            proof {
                if rate > 0 && mono@.len() == 0 {
                    assert(resample_len(0, rate as int, TARGET_SAMPLE_RATE as int) == 0) by {
                        lemma_basic_div(rate as int - 1, rate as int);
                    }
                }
            }
            Ok(resample_linear(&mono, rate, TARGET_SAMPLE_RATE))
        },
    }
}

/// Encoding samples at the engine's rate and normalizing the result
/// recovers the samples exactly: a mono 16 kHz buffer passes through the
/// whole pipeline unchanged.
pub proof fn lemma_encode_normalize_round_trip(samples: Seq<i16>)
    requires
        36 + 2 * samples.len() <= u32::MAX,
    ensures
        read_wav_samples_spec(encode_wav_spec(samples, TARGET_SAMPLE_RATE)) == Ok::<
            Seq<i16>,
            SpeechError,
        >(samples),
{
    lemma_wav_round_trip(samples, TARGET_SAMPLE_RATE);
    let info = WavInfo { channels: 1, sample_rate: TARGET_SAMPLE_RATE, samples };
    let mono = downmix_spec(info.samples, 1);
    assert(mono == samples);
    let n = samples.len() as int;
    assert(resample_len(n, 16000, 16000) == n) by {
        lemma_fundamental_div_mod_converse(n * 16000 + 15999, 16000, n, 15999);
    }
    assert(resample_fits(mono.len() as int, TARGET_SAMPLE_RATE));
    lemma_resample_identity(samples, TARGET_SAMPLE_RATE as int);
}

/// A two-channel buffer downmixes to the truncated mean of each `[left,
/// right]` frame, clamped to the 16-bit range.
pub proof fn lemma_downmix_stereo(input: Seq<i16>)
    ensures
        downmix_spec(input, 2).len() == input.len() as int / 2,
        forall|j: int|
            0 <= j < input.len() as int / 2 ==> downmix_spec(input, 2)[j] == clamp16(
                div_trunc(input[2 * j] + input[2 * j + 1], 2),
            ) as i16,
{
    assert forall|j: int| 0 <= j < input.len() as int / 2 implies downmix_spec(input, 2)[j]
        == clamp16(div_trunc(input[2 * j] + input[2 * j + 1], 2)) as i16 by {
        reveal_with_fuel(frame_sum, 3);
        assert(frame_sum(input, 2, j, 2) == input[2 * j] + input[2 * j + 1]);
    }
}

} // verus!
