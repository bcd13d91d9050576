use dub_oxide::error::Error;
use dub_oxide::formats::aiff::AiffSplitter;
use dub_oxide::formats::common::{
    bytes_to_timestamp, find_silent_position, frame_energy, frame_is_quiet,
};
use dub_oxide::formats::wav::{check_byte_length, split_samples};
use dub_oxide::opts::SplitOpts;
use dub_oxide::result::{AudioChunk, SplitResult};
use dub_oxide::{AudioSplitter, BytesPerMillisecond, CodecMetadata, WavSplitter};

fn mono() -> CodecMetadata {
    CodecMetadata { sample_rate: 44100, channels: 1, bits_per_sample: 16 }
}

fn by_size(size: usize) -> SplitOpts {
    SplitOpts::builder::<CodecMetadata>().split_by_memsize(size).build().unwrap()
}

fn lengths(chunks: &[AudioChunk<i16>]) -> Vec<usize> {
    let mut out = Vec::new();
    for c in chunks {
        out.push(c.len());
    }
    out
}

#[test]
fn wavspec_bytes_per_ms_works() {
    let wavspec = CodecMetadata { sample_rate: 44100, bits_per_sample: 16, channels: 2 };

    assert_eq!(wavspec.bytes_per_ms(), 88);
}

#[test]
fn bytes_per_ms_rounds_down() {
    assert_eq!(mono().bytes_per_ms(), 44);
    let slow = CodecMetadata { sample_rate: 999, channels: 1, bits_per_sample: 16 };
    assert_eq!(slow.bytes_per_ms(), 0);
    let exact = CodecMetadata { sample_rate: 48000, channels: 2, bits_per_sample: 16 };
    assert_eq!(exact.bytes_per_ms(), 96);
}

#[test]
fn timestamps_round_down() {
    assert_eq!(bytes_to_timestamp(0, 44), 0);
    assert_eq!(bytes_to_timestamp(43, 44), 0);
    assert_eq!(bytes_to_timestamp(44, 44), 1);
    assert_eq!(bytes_to_timestamp(441000, 44), 10022);
}

#[test]
fn energy_is_the_sum_of_squares() {
    let samples: Vec<i16> = vec![3, -4, 0, 100, i16::MIN];
    assert_eq!(frame_energy(&samples, 0, 2), 25);
    assert_eq!(frame_energy(&samples, 0, 4), 10025);
    assert_eq!(frame_energy(&samples, 4, 5), 32768 * 32768);
    assert_eq!(frame_energy(&samples, 2, 2), 0);
}

#[test]
fn quiet_compares_the_mean_square() {
    let samples: Vec<i16> = vec![3, -4, 0, 0];
    // mean square of [3, -4] is 12.5
    assert!(frame_is_quiet(&samples, 0, 2, 13));
    assert!(!frame_is_quiet(&samples, 0, 2, 12));
    assert!(frame_is_quiet(&samples, 2, 4, 0));
    assert!(!frame_is_quiet(&samples, 2, 2, u64::MAX));
}

#[test]
fn silent_position_is_the_latest_quiet_frame() {
    let samples: Vec<i16> = vec![1000, 1000, 0, 0, 1000, 1000, 0, 0, 1000, 1000];
    assert_eq!(find_silent_position(&samples, 2, 0), Some(6));
    assert_eq!(find_silent_position(&samples[..6], 2, 0), Some(2));
}

#[test]
fn silent_position_falls_back_to_the_window_length() {
    let samples: Vec<i16> = vec![1000; 10];
    assert_eq!(find_silent_position(&samples, 3, 999_999), Some(10));
    let empty: Vec<i16> = Vec::new();
    assert_eq!(find_silent_position(&empty, 3, 0), Some(0));
}

#[test]
fn silent_position_counts_the_short_last_frame() {
    let samples: Vec<i16> = vec![1000, 1000, 1000, 1000, 0];
    assert_eq!(find_silent_position(&samples, 2, 0), Some(4));
    let first_only: Vec<i16> = vec![0, 0, 1000, 1000, 1000];
    assert_eq!(find_silent_position(&first_only, 2, 0), Some(0));
}

#[test]
fn ten_seconds_fit_one_chunk_of_a_megabyte() {
    let samples: Vec<i16> = vec![7; 441_000];
    let chunks = split_samples(&samples, mono().bytes_per_ms(), &by_size(1_048_576));
    assert_eq!(lengths(&chunks), vec![441_000]);
    assert_eq!(chunks[0].timestamp_start(), 0);
    assert_eq!(chunks[0].timestamp_end(), 10022);
}

#[test]
fn hard_cuts_fall_on_the_budget() {
    let samples: Vec<i16> = vec![7; 441_000];
    let chunks = split_samples(&samples, mono().bytes_per_ms(), &by_size(100_000));
    assert_eq!(lengths(&chunks), vec![100_000, 100_000, 100_000, 100_000, 41_000]);
    let exact = split_samples(&samples[..300_000], 44, &by_size(100_000));
    assert_eq!(lengths(&exact), vec![100_000, 100_000, 100_000]);
}

#[test]
fn chunks_reproduce_the_buffer() {
    let mut samples: Vec<i16> = Vec::new();
    for i in 0..1000 {
        samples.push((i * 37 % 2000) as i16 - 1000);
    }
    let opts = SplitOpts::builder::<CodecMetadata>()
        .split_by_memsize(130)
        .silence_threshold(400_000)
        .build()
        .unwrap();
    let chunks = split_samples(&samples, 1, &opts);
    let mut joined: Vec<i16> = Vec::new();
    for c in &chunks {
        assert!(c.len() > 0);
        assert!(c.len() <= 130);
        joined.extend_from_slice(c.as_slice());
    }
    assert_eq!(joined, samples);
    for pair in chunks.windows(2) {
        assert_eq!(pair[0].timestamp_end(), pair[1].timestamp_start());
        assert!(pair[0].timestamp_start() <= pair[0].timestamp_end());
    }
    assert_eq!(chunks[0].timestamp_start(), 0);
    assert_eq!(chunks[chunks.len() - 1].timestamp_end(), 1000);
}

#[test]
fn cuts_move_back_to_the_latest_silence() {
    let mut samples: Vec<i16> = vec![1000; 500];
    for s in samples[50..150].iter_mut() {
        *s = 0;
    }
    let opts = SplitOpts::builder::<CodecMetadata>()
        .split_by_memsize(200)
        .silence_threshold(0)
        .build()
        .unwrap();
    // one sample per millisecond: sub-frames of 50 samples
    let chunks = split_samples(&samples, 1, &opts);
    // [50, 100) and [100, 150) are quiet: the cut is at 100, not at 50
    assert_eq!(lengths(&chunks), vec![100, 200, 200]);
    assert_eq!(chunks[0].timestamp_end(), 100);
    assert_eq!(chunks[1].timestamp_start(), 100);
    assert_eq!(chunks[1].timestamp_end(), 300);
    assert_eq!(chunks[2].timestamp_end(), 500);
}

#[test]
fn silence_at_the_window_start_gives_a_hard_cut() {
    let mut samples: Vec<i16> = vec![1000; 500];
    for s in samples[0..50].iter_mut() {
        *s = 0;
    }
    let opts = SplitOpts::builder::<CodecMetadata>()
        .split_by_memsize(200)
        .silence_threshold(0)
        .build()
        .unwrap();
    let chunks = split_samples(&samples, 1, &opts);
    assert_eq!(lengths(&chunks), vec![200, 200, 100]);
}

#[test]
fn no_silence_gives_hard_cuts() {
    let samples: Vec<i16> = vec![1000; 450];
    let opts = SplitOpts::builder::<CodecMetadata>()
        .split_by_memsize(200)
        .silence_threshold(999_999)
        .build()
        .unwrap();
    let chunks = split_samples(&samples, 1, &opts);
    assert_eq!(lengths(&chunks), vec![200, 200, 50]);
}

#[test]
fn an_empty_buffer_gives_no_chunk() {
    let samples: Vec<i16> = Vec::new();
    let chunks = split_samples(&samples, 44, &by_size(10));
    assert_eq!(chunks.len(), 0);
}

#[test]
fn splitting_by_duration_uses_the_codec() {
    let stereo = CodecMetadata { sample_rate: 44100, channels: 2, bits_per_sample: 16 };
    let opts = SplitOpts::builder().codec(stereo).split_by_duration(10_000).build().unwrap();
    assert_eq!(opts.frame_size(), 880_000);
    assert_eq!(opts.silence_threshold(), None);
    let with = SplitOpts::builder()
        .codec(stereo)
        .silence_threshold(12)
        .split_by_duration(1)
        .build()
        .unwrap();
    assert_eq!(with.frame_size(), 88);
    assert_eq!(with.silence_threshold(), Some(12));
}

#[test]
fn both_criteria_are_incompatible() {
    let r = SplitOpts::builder().codec(mono()).split_by_duration(10).split_by_memsize(10).build();
    match r {
        Err(Error::IncompatibleOptions(a, b)) => {
            assert_eq!(a, "duration_chunk_criteria");
            assert_eq!(b, "memsize_chunk_criteria");
        }
        _ => panic!("expected incompatible options"),
    }
}

#[test]
fn no_criterion_is_a_missing_field() {
    let r = SplitOpts::builder().codec(mono()).build();
    match r {
        Err(Error::MissingBuilderField(f)) => assert_eq!(f, "memsize_chunk_criteria"),
        _ => panic!("expected a missing field"),
    }
    let zero = SplitOpts::builder::<CodecMetadata>().split_by_memsize(0).build();
    assert!(matches!(zero, Err(Error::MissingBuilderField(_))));
}

#[test]
fn a_duration_needs_a_usable_codec() {
    let r = SplitOpts::builder::<CodecMetadata>().split_by_duration(10).build();
    match r {
        Err(Error::MissingBuilderField(f)) => assert_eq!(f, "codec"),
        _ => panic!("expected a missing field"),
    }
    let slow = CodecMetadata { sample_rate: 0, channels: 2, bits_per_sample: 16 };
    let r = SplitOpts::builder().codec(slow).split_by_duration(10).build();
    match r {
        Err(Error::MissingBuilderField(f)) => assert_eq!(f, "codec"),
        _ => panic!("expected a missing field"),
    }
    let r = SplitOpts::builder().codec(mono()).split_by_duration(0).build();
    match r {
        Err(Error::MissingBuilderField(f)) => assert_eq!(f, "duration_chunk_criteria"),
        _ => panic!("expected a missing field"),
    }
}

#[test]
fn error_constructors_keep_their_arguments() {
    assert!(matches!(Error::inconsistent_byte_length(3, 4), Error::InconsistentByteLength(3, 4)));
    match Error::incompatible_options("a", "b") {
        Error::IncompatibleOptions(a, b) => {
            assert_eq!(a, "a");
            assert_eq!(b, "b");
        }
        _ => panic!("wrong variant"),
    }
    match Error::missing_builder_field("codec") {
        Error::MissingBuilderField(f) => assert_eq!(f, "codec"),
        _ => panic!("wrong variant"),
    }
}

#[test]
fn a_wrong_sample_count_is_reported() {
    assert!(check_byte_length(5, 5).is_ok());
    assert!(matches!(check_byte_length(5, 6), Err(Error::InconsistentByteLength(5, 6))));
    let mut splitter = WavSplitter::from_samples(vec![1, 2, 3], 4, mono());
    let r = splitter.split_audio(by_size(2));
    assert!(matches!(r, Err(Error::InconsistentByteLength(3, 4))));
}

#[test]
fn a_wav_stream_is_split() {
    let samples: Vec<i16> = vec![5; 100];
    let mut splitter = WavSplitter::from_samples(samples, 100, mono());
    assert_eq!(splitter.codec(), mono());
    let result = splitter.split_audio(by_size(44)).unwrap();
    assert_eq!(result.len(), 3);
    assert_eq!(*result.get_codec(), mono());
    assert_eq!(result.get_codec_owned(), mono());
    assert_eq!(lengths(result.chunks()), vec![44, 44, 12]);
    assert_eq!(result.chunks()[1].timestamp_start(), 1);
    assert_eq!(result.chunks()[1].timestamp_end(), 2);
    assert_eq!(result.chunks()[2].timestamp_end(), 2);
    let chunks = result.into_chunks();
    assert_eq!(chunks.len(), 3);
}

#[test]
fn an_aiff_stream_is_split() {
    let bytes: Vec<u8> = vec![9; 100];
    let mut splitter = AiffSplitter::from_samples(bytes, mono());
    assert_eq!(splitter.codec(), mono());
    let result = splitter.split_audio(by_size(30)).unwrap();
    assert_eq!(result.len(), 4);
    assert_eq!(result.chunks()[3].len(), 10);
    assert_eq!(result.chunks()[3].as_slice(), &[9u8; 10][..]);
}

#[test]
fn chunks_keep_what_they_are_given() {
    let chunk = AudioChunk::new(&[1i16, -2, 3], 4, 5);
    assert_eq!(chunk.as_slice(), &[1, -2, 3][..]);
    assert_eq!(chunk.len(), 3);
    assert_eq!(chunk.timestamp_start(), 4);
    assert_eq!(chunk.timestamp_end(), 5);
}

#[test]
fn samples_become_little_endian_bytes() {
    let chunk = AudioChunk::new(&[1i16, -2, 0x1234, i16::MIN], 0, 0);
    assert_eq!(chunk.to_bytes_vec(), vec![0x01, 0x00, 0xfe, 0xff, 0x34, 0x12, 0x00, 0x80]);
    let first = AudioChunk::new(&[0x0102i16], 0, 1);
    let second = AudioChunk::new(&[-1i16, 0x0304], 1, 2);
    let result = SplitResult::new(vec![first, second], mono());
    assert_eq!(result.into_u8_vec(), vec![0x02, 0x01, 0xff, 0xff, 0x04, 0x03]);
}

#[test]
fn packets_are_joined_in_order() {
    let packets: Vec<Vec<u8>> = vec![vec![1, 2, 3], vec![], vec![4], vec![5, 6]];
    let mut splitter = AiffSplitter::from_packets(&packets, Some(mono())).unwrap();
    let result = splitter.split_audio(by_size(4)).unwrap();
    assert_eq!(result.len(), 2);
    assert_eq!(result.chunks()[0].as_slice(), &[1u8, 2, 3, 4][..]);
    assert_eq!(result.chunks()[1].as_slice(), &[5u8, 6][..]);
}

#[test]
fn packets_without_a_codec_are_refused() {
    let packets: Vec<Vec<u8>> = vec![vec![1, 2, 3]];
    match AiffSplitter::from_packets(&packets, None) {
        Err(Error::MissingBuilderField(f)) => assert_eq!(f, "codec"),
        _ => panic!("expected a missing field"),
    }
    let slow = CodecMetadata { sample_rate: 10, channels: 1, bits_per_sample: 8 };
    assert!(matches!(
        AiffSplitter::from_packets(&packets, Some(slow)),
        Err(Error::MissingBuilderField(_))
    ));
}
