use dub_oxide::error::Error;
use dub_oxide::formats::wav::{collect_samples, DecodedWav};
use dub_oxide::opts::SplitOpts;
use dub_oxide::result::{AudioChunk, SplitResult};
use dub_oxide::{AudioSplitter, CodecMetadata, WavSplitter};

fn wav_bytes(channels: u16, sample_rate: u32, bits: u16, data: &[u8]) -> Vec<u8> {
    let block_align = channels * (bits / 8);
    let mut out: Vec<u8> = Vec::new();
    out.extend_from_slice(b"RIFF");
    out.extend_from_slice(&(36 + data.len() as u32).to_le_bytes());
    out.extend_from_slice(b"WAVE");
    out.extend_from_slice(b"fmt ");
    out.extend_from_slice(&16u32.to_le_bytes());
    out.extend_from_slice(&1u16.to_le_bytes());
    out.extend_from_slice(&channels.to_le_bytes());
    out.extend_from_slice(&sample_rate.to_le_bytes());
    out.extend_from_slice(&(sample_rate * block_align as u32).to_le_bytes());
    out.extend_from_slice(&block_align.to_le_bytes());
    out.extend_from_slice(&bits.to_le_bytes());
    out.extend_from_slice(b"data");
    out.extend_from_slice(&(data.len() as u32).to_le_bytes());
    out.extend_from_slice(data);
    out
}

fn by_size(size: usize) -> SplitOpts {
    SplitOpts::builder::<CodecMetadata>().split_by_memsize(size).build().unwrap()
}

#[test]
fn a_wav_in_memory_is_decoded_and_split() {
    let bytes = wav_bytes(1, 44100, 16, &[1, 0, 0xfe, 0xff, 0x2c, 0x01]);
    let mut splitter = WavSplitter::from_bytes(&bytes).unwrap();
    assert_eq!(
        splitter.codec(),
        CodecMetadata { sample_rate: 44100, channels: 1, bits_per_sample: 16 }
    );
    let result = splitter.split_audio(by_size(2)).unwrap();
    assert_eq!(result.len(), 2);
    assert_eq!(result.chunks()[0].as_slice(), &[1i16, -2][..]);
    assert_eq!(result.chunks()[1].as_slice(), &[300i16][..]);
    assert_eq!(result.into_u8_vec(), vec![1, 0, 0xfe, 0xff, 0x2c, 0x01]);
}

#[test]
fn what_is_no_wav_is_refused() {
    let r = WavSplitter::from_bytes(b"this is no wav stream at all, not even close");
    assert!(matches!(r, Err(Error::Hound(_))));
    let empty = WavSplitter::from_bytes(&[]);
    assert!(matches!(empty, Err(Error::Hound(_))));
}

#[test]
fn a_wav_without_a_usable_rate_is_refused() {
    let bytes = wav_bytes(1, 500, 16, &[1, 0]);
    match WavSplitter::from_bytes(&bytes) {
        Err(Error::MissingBuilderField(f)) => assert_eq!(f, "codec"),
        _ => panic!("expected a missing field"),
    }
}

#[test]
fn samples_too_wide_for_16_bits_are_an_inconsistency() {
    let bytes = wav_bytes(1, 44100, 24, &[1, 2, 3, 4, 5, 6]);
    let mut splitter = WavSplitter::from_bytes(&bytes).unwrap();
    let r = splitter.split_audio(by_size(10));
    assert!(matches!(r, Err(Error::InconsistentByteLength(0, 2))));
}

#[test]
fn only_the_samples_that_were_read_are_kept() {
    let samples = vec![Some(1i16), None, Some(-3), None, None, Some(7)];
    assert_eq!(collect_samples(&samples), vec![1, -3, 7]);
    let codec = CodecMetadata { sample_rate: 8000, channels: 1, bits_per_sample: 16 };
    let decoded = DecodedWav { codec, declared_len: 6, samples };
    let mut splitter = WavSplitter::from_decoded(decoded).unwrap();
    let r = splitter.split_audio(by_size(10));
    assert!(matches!(r, Err(Error::InconsistentByteLength(3, 6))));
}

#[test]
fn a_result_can_be_walked() {
    let codec = CodecMetadata { sample_rate: 8000, channels: 1, bits_per_sample: 16 };
    let first = AudioChunk::new(&[1i16, 2], 0, 1);
    let second = AudioChunk::new(&[3i16], 1, 2);
    let result = SplitResult::new(vec![first, second], codec);
    let mut seen: Vec<usize> = Vec::new();
    for chunk in result.iter() {
        seen.push(chunk.len());
    }
    assert_eq!(seen, vec![2, 1]);
    let mut ends: Vec<usize> = Vec::new();
    for chunk in result.into_iter() {
        ends.push(chunk.timestamp_end());
    }
    assert_eq!(ends, vec![1, 2]);
}

#[test]
fn a_stream_can_be_split_again_after_a_reset() {
    let bytes = wav_bytes(2, 8000, 16, &[1, 0, 2, 0, 3, 0, 4, 0]);
    let mut splitter = WavSplitter::from_bytes(&bytes).unwrap();
    let first = splitter.split_audio(by_size(3)).unwrap();
    assert!(splitter.reset().is_ok());
    let second = splitter.split_audio(by_size(3)).unwrap();
    assert_eq!(first.len(), 2);
    assert_eq!(second.len(), 2);
    assert_eq!(first.into_u8_vec(), second.into_u8_vec());
}
