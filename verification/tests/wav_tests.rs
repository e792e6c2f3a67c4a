use std::io::Cursor;

use murmure::errors::SpeechError;
use murmure::wav::{decode_wav, encode_wav};

#[test]
fn encode_empty_is_exact_header() {
    let samples: Vec<i16> = Vec::new();
    let bytes = encode_wav(&samples, 16000);
    let expected: Vec<u8> = vec![
        0x52, 0x49, 0x46, 0x46, // RIFF
        36, 0, 0, 0, // riff size
        0x57, 0x41, 0x56, 0x45, // WAVE
        0x66, 0x6d, 0x74, 0x20, // fmt_
        16, 0, 0, 0, // fmt size
        1, 0, // integer PCM
        1, 0, // one channel
        0x80, 0x3e, 0, 0, // 16000 Hz
        0x00, 0x7d, 0, 0, // byte rate 32000
        2, 0, // block align
        16, 0, // bits per sample
        0x64, 0x61, 0x74, 0x61, // data
        0, 0, 0, 0, // data size
    ];
    assert_eq!(bytes, expected);
}

#[test]
fn encode_writes_samples_little_endian() {
    let samples: Vec<i16> = vec![1, -2];
    let bytes = encode_wav(&samples, 8000);
    assert_eq!(bytes.len(), 48);
    assert_eq!(&bytes[44..], &[1, 0, 0xfe, 0xff]);
}

#[test]
fn round_trip_empty() {
    let samples: Vec<i16> = Vec::new();
    let w = decode_wav(&encode_wav(&samples, 16000)).unwrap();
    assert_eq!(w.channels, 1);
    assert_eq!(w.sample_rate, 16000);
    assert_eq!(w.samples, samples);
}

#[test]
fn round_trip_one_sample() {
    let samples: Vec<i16> = vec![-12345];
    let w = decode_wav(&encode_wav(&samples, 44100)).unwrap();
    assert_eq!(w.channels, 1);
    assert_eq!(w.sample_rate, 44100);
    assert_eq!(w.samples, samples);
}

#[test]
fn round_trip_thousand_samples() {
    let samples: Vec<i16> = (0..1000).map(|i| ((i * 37) % 65536 - 32768) as i16).collect();
    let w = decode_wav(&encode_wav(&samples, 22050)).unwrap();
    assert_eq!(w.channels, 1);
    assert_eq!(w.sample_rate, 22050);
    assert_eq!(w.samples, samples);
}

#[test]
fn hound_reads_our_output() {
    let samples: Vec<i16> = vec![0, 1, -1, 32767, -32768, 100];
    let bytes = encode_wav(&samples, 16000);
    let mut reader = hound::WavReader::new(Cursor::new(bytes)).unwrap();
    let spec = reader.spec();
    assert_eq!(spec.channels, 1);
    assert_eq!(spec.sample_rate, 16000);
    assert_eq!(spec.bits_per_sample, 16);
    assert_eq!(spec.sample_format, hound::SampleFormat::Int);
    let read: Vec<i16> = reader.samples::<i16>().map(|s| s.unwrap()).collect();
    assert_eq!(read, samples);
}

#[test]
fn we_read_hound_output() {
    let spec = hound::WavSpec {
        channels: 2,
        sample_rate: 44100,
        bits_per_sample: 16,
        sample_format: hound::SampleFormat::Int,
    };
    let mut buf: Vec<u8> = Vec::new();
    {
        let mut writer = hound::WavWriter::new(Cursor::new(&mut buf), spec).unwrap();
        for s in [10i16, -10, 500, -500] {
            writer.write_sample(s).unwrap();
        }
        writer.finalize().unwrap();
    }
    let w = decode_wav(&buf).unwrap();
    assert_eq!(w.channels, 2);
    assert_eq!(w.sample_rate, 44100);
    assert_eq!(w.samples, vec![10, -10, 500, -500]);
}

#[test]
fn decode_rejects_empty_buffer() {
    let r = decode_wav(&Vec::new());
    assert!(matches!(r, Err(SpeechError::IoError)));
}

#[test]
fn decode_rejects_bad_magic() {
    let mut bytes = encode_wav(&vec![0i16; 4], 8000);
    bytes[0] = b'X';
    assert!(matches!(decode_wav(&bytes), Err(SpeechError::IoError)));
}

#[test]
fn decode_rejects_truncated_data() {
    let mut bytes = encode_wav(&vec![0i16; 4], 8000);
    bytes.truncate(bytes.len() - 2);
    assert!(matches!(decode_wav(&bytes), Err(SpeechError::IoError)));
}

#[test]
fn decode_rejects_eight_bit_audio() {
    let spec = hound::WavSpec {
        channels: 1,
        sample_rate: 8000,
        bits_per_sample: 8,
        sample_format: hound::SampleFormat::Int,
    };
    let mut buf: Vec<u8> = Vec::new();
    {
        let mut writer = hound::WavWriter::new(Cursor::new(&mut buf), spec).unwrap();
        for s in [1i8, 2, 3] {
            writer.write_sample(s).unwrap();
        }
        writer.finalize().unwrap();
    }
    assert!(matches!(decode_wav(&buf), Err(SpeechError::UnsupportedFormat)));
}

#[test]
fn decode_skips_unknown_chunks() {
    // RIFF/WAVE, an unknown chunk, then the canonical fmt and data chunks
    let inner = encode_wav(&vec![7i16, -7], 8000);
    let mut bytes: Vec<u8> = Vec::new();
    bytes.extend_from_slice(&inner[0..12]); // RIFF size WAVE
    bytes.extend_from_slice(b"LIST");
    bytes.extend_from_slice(&[3, 0, 0, 0]); // odd size: padded to 4
    bytes.extend_from_slice(&[9, 9, 9, 0]);
    bytes.extend_from_slice(&inner[12..]); // fmt + data
    let w = decode_wav(&bytes).unwrap();
    assert_eq!(w.channels, 1);
    assert_eq!(w.sample_rate, 8000);
    assert_eq!(w.samples, vec![7, -7]);
}
