use dub_oxide::encoder::extended::Extended;
use dub_oxide::encoder::{AiffEncoder, AiffHeader, CommChunk, SoundChunk};

#[test]
fn zero_encodes_as_zero_bytes() {
    assert_eq!(Extended::from_f64_bits(0.0f64.to_bits()).to_be_bytes(), [0u8; 10]);
    assert_eq!(Extended::from_f64_bits((-0.0f64).to_bits()).to_be_bytes(), [0u8; 10]);
}

#[test]
fn a_sample_rate_encodes_normalised() {
    // 44100 = 0.67291259765625 * 2^16
    let e = Extended::from_f64_bits(44100.0f64.to_bits());
    assert_eq!(e.sign_exponent, 16383 + 16);
    assert_eq!(e.mantissa, 0x5622_0000_0000_0000);
    assert_eq!(e.to_be_bytes(), [0x40, 0x0f, 0x56, 0x22, 0, 0, 0, 0, 0, 0]);
}

#[test]
fn powers_of_two_and_signs() {
    let one = Extended::from_f64_bits(1.0f64.to_bits());
    assert_eq!(one, Extended { sign_exponent: 16384, mantissa: 1 << 62 });
    let half = Extended::from_f64_bits(0.5f64.to_bits());
    assert_eq!(half, Extended { sign_exponent: 16383, mantissa: 1 << 62 });
    let minus = Extended::from_f64_bits((-3.0f64).to_bits());
    assert_eq!(minus, Extended { sign_exponent: 0x8000 + 16385, mantissa: 3 << 61 });
    let quarter = Extended::from_f64_bits(0.25f64.to_bits());
    assert_eq!(quarter, Extended { sign_exponent: 16382, mantissa: 1 << 62 });
}

#[test]
fn the_smallest_and_largest_doubles() {
    let tiny = Extended::from_f64_bits(1);
    assert_eq!(tiny, Extended { sign_exponent: 16383 - 1073, mantissa: 1 << 62 });
    let huge = Extended::from_f64_bits(f64::MAX.to_bits());
    assert_eq!(huge, Extended { sign_exponent: 16383 + 1024, mantissa: 0x7fff_ffff_ffff_fc00 });
    let e = Extended { sign_exponent: 0x1234, mantissa: 0x0102_0304_0506_0708 };
    assert_eq!(e.to_be_bytes(), [0x12, 0x34, 1, 2, 3, 4, 5, 6, 7, 8]);
}

#[test]
fn infinities_and_nans_are_not_encoded() {
    assert_eq!(Extended::try_from_f64_bits(f64::INFINITY.to_bits()), None);
    assert_eq!(Extended::try_from_f64_bits(f64::NEG_INFINITY.to_bits()), None);
    assert_eq!(Extended::try_from_f64_bits(f64::NAN.to_bits()), None);
    assert_eq!(
        Extended::try_from_f64_bits(2.0f64.to_bits()),
        Some(Extended { sign_exponent: 16385, mantissa: 1 << 62 })
    );
}

#[test]
fn the_form_record_declares_what_follows() {
    let samples: Vec<i16> = vec![0; 100];
    let header = AiffHeader::new(44100.0f64.to_bits(), 2, 100);
    let encoder = AiffEncoder::from_samples(samples, header);
    assert!(encoder.is_encodable());
    let bytes = encoder.encode().unwrap();
    assert_eq!(&bytes[0..4], b"FORM");
    let declared = u32::from_be_bytes([bytes[4], bytes[5], bytes[6], bytes[7]]);
    assert_eq!(declared, 28 + 18 + 200);
    assert_eq!(bytes.len(), 8 + 28 + 18 + 200);
    assert_eq!(&bytes[8..12], b"AIFF");
}

#[test]
fn the_container_is_laid_out_byte_by_byte() {
    let samples: Vec<i16> = vec![0x0102, -2];
    let header = AiffHeader::new(44100.0f64.to_bits(), 1, 2);
    let bytes = AiffEncoder::from_samples(samples, header).encode().unwrap();
    let expected: Vec<u8> = vec![
        b'F', b'O', b'R', b'M', 0, 0, 0, 50, b'A', b'I', b'F', b'F', // form
        b'C', b'O', b'M', b'M', 0, 0, 0, 18, 0, 1, 0, 0, 0, 2, 0, 16, // format
        0x40, 0x0f, 0x56, 0x22, 0, 0, 0, 0, 0, 0, // sample rate
        b'S', b'S', b'N', b'D', 0, 0, 0, 12, 0, 0, 0, 0, 0, 0, 0, 0, // sound
        0x01, 0x02, 0xff, 0xfe,
    ];
    assert_eq!(bytes, expected);
}

#[test]
fn the_format_record_is_written_big_endian() {
    let chunk = CommChunk::new(0x0102, 0x0304_0506, 0x0708, 1.0f64.to_bits());
    assert_eq!(chunk.ck_size, 18);
    let mut buffer: Vec<u8> = vec![0xaa];
    chunk.write_bytes(&mut buffer).unwrap();
    let expected: Vec<u8> = vec![
        0xaa, b'C', b'O', b'M', b'M', 0, 0, 0, 18, 1, 2, 3, 4, 5, 6, 7, 8, 0x40, 0, 0x40, 0, 0, 0,
        0, 0, 0, 0,
    ];
    assert_eq!(buffer, expected);
}

#[test]
fn the_sound_record_counts_its_two_fields() {
    let chunk = SoundChunk::new(vec![1, 2, 3]);
    assert_eq!(chunk.ck_size, 3);
    assert_eq!(chunk.samples_as_u8_bytes(), vec![1, 2, 3]);
    let mut buffer: Vec<u8> = Vec::new();
    chunk.write_bytes(&mut buffer).unwrap();
    let expected: Vec<u8> = vec![b'S', b'S', b'N', b'D', 0, 0, 0, 11, 0, 0, 0, 0, 0, 0, 0, 0, 1, 2, 3];
    assert_eq!(buffer, expected);
    let large = SoundChunk::new(vec![0; 0x0001_02fc]);
    let mut out: Vec<u8> = Vec::new();
    large.write_bytes(&mut out).unwrap();
    assert_eq!(&out[4..8], &[0x00, 0x01, 0x03, 0x04]);
}

#[test]
fn the_encoder_hands_out_its_records() {
    let header = AiffHeader::new(48000.0f64.to_bits(), 2, 3);
    assert_eq!(header.calculate_form_chunk_size(), 12);
    let encoder = AiffEncoder::from_samples(vec![1, -1, 256], header);
    assert_eq!(encoder.convert_to_u8_bytes(), vec![0, 1, 0xff, 0xff, 1, 0]);
    let comm = encoder.comm_chunk();
    assert_eq!(comm.num_channels, 2);
    assert_eq!(comm.num_sample_frames, 3);
    assert_eq!(comm.sample_size, 16);
    assert_eq!(comm.sample_rate, 48000.0f64.to_bits());
    let sound = encoder.sound_chunk();
    assert_eq!(sound.ck_size, 6);
    assert_eq!(sound.offset, 0);
    assert_eq!(sound.block_size, 0);
    assert_eq!(sound.sound_data, vec![0, 1, 0xff, 0xff, 1, 0]);
}

#[test]
fn a_sample_rate_that_is_no_number_cannot_be_encoded() {
    let header = AiffHeader::new(f64::NAN.to_bits(), 1, 0);
    let encoder = AiffEncoder::from_samples(Vec::new(), header);
    assert!(!encoder.is_encodable());
}
