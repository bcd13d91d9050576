//! Packing PCM samples into an AIFF container: a FORM record that holds a
//! COMM record with the format and an SSND record with the samples.
//!
//! Samples are stored as the container asks: 16 bits each, most significant
//! byte first.
use vstd::prelude::*;
use crate::encoder::extended::{be_bytes_u16, be_bytes_u64, is_finite, spec_encode, Extended};
use crate::encoder::writer::{be_bytes_u32, write_i32_be, write_u16_be, write_u32_be};
use crate::error::Error;
use crate::result::bit_pattern;

pub mod extended;
pub mod writer;

verus! {

/// The tag `FORM`.
pub open spec fn form_tag() -> Seq<u8> {
    seq![0x46u8, 0x4fu8, 0x52u8, 0x4du8]
}

/// The tag `AIFF`.
pub open spec fn aiff_tag() -> Seq<u8> {
    seq![0x41u8, 0x49u8, 0x46u8, 0x46u8]
}

/// The tag `COMM`.
pub open spec fn comm_tag() -> Seq<u8> {
    seq![0x43u8, 0x4fu8, 0x4du8, 0x4du8]
}

/// The tag `SSND`.
pub open spec fn ssnd_tag() -> Seq<u8> {
    seq![0x53u8, 0x53u8, 0x4eu8, 0x44u8]
}

/// The samples as bytes, each sample big-endian: high byte, then low byte.
pub open spec fn be_bytes(samples: Seq<i16>) -> Seq<u8> {
    Seq::new(
        2 * samples.len(),
        |i: int|
            if i % 2 == 0 {
                (bit_pattern(samples[i / 2]) / 0x100) as u8
            } else {
                (bit_pattern(samples[i / 2]) % 0x100) as u8
            },
    )
}

/// The ten bytes of an extended-precision number.
pub open spec fn extended_bytes(value: Extended) -> Seq<u8> {
    be_bytes_u16(value.sign_exponent) + be_bytes_u64(value.mantissa)
}

/// What a stream is described by: its sample rate, as the bit pattern of a
/// double, the number of its channels and the number of its samples.
#[derive(Clone, Copy, Debug)]
pub struct AiffHeader {
    pub sample_rate: u64,
    pub num_channels: u16,
    pub num_samples: u32,
}

impl AiffHeader {
    pub fn new(sample_rate: u64, num_channels: u16, num_samples: u32) -> (header: Self)
        ensures
            header.sample_rate == sample_rate,
            header.num_channels == num_channels,
            header.num_samples == num_samples,
    {
        Self { sample_rate, num_channels, num_samples }
    }

    /// The number of bytes that the samples take, at two bytes each.
    pub fn calculate_form_chunk_size(&self) -> (size: usize)
        requires
            self.num_samples * self.num_channels * 2 <= usize::MAX,
        ensures
            size == self.num_samples * self.num_channels * 2,
    {
        assert(self.num_samples as u64 * self.num_channels as u64 <= 0xffff_ffff * 0xffff)
            by (nonlinear_arith)
            requires
                self.num_samples <= 0xffff_ffff,
                self.num_channels <= 0xffff,
        ;
        let size: u64 = self.num_samples as u64 * self.num_channels as u64 * 2;
        size as usize
    }
}

/// The format record.
pub struct CommChunk {
    /// The tag, `COMM`.
    pub ck_id: [u8; 4],
    /// The size of what follows the size field: 18.
    pub ck_size: u32,
    pub num_channels: u16,
    pub num_sample_frames: u32,
    /// Bits per sample.
    pub sample_size: u16,
    /// The sample rate, as the bit pattern of a double.
    pub sample_rate: u64,
}

impl CommChunk {
    /// The bytes of the record: tag, size, channels, sample frames, bits per
    /// sample, all big-endian, and the sample rate as an extended-precision
    /// number.
    pub open spec fn spec_bytes(&self) -> Seq<u8> {
        self.ck_id@ + be_bytes_u32(self.ck_size) + be_bytes_u16(self.num_channels) + be_bytes_u32(
            self.num_sample_frames,
        ) + be_bytes_u16(self.sample_size) + extended_bytes(spec_encode(self.sample_rate))
    }

    pub fn new(num_channels: u16, num_sample_frames: u32, sample_size: u16, sample_rate: u64) -> (c:
        Self)
        ensures
            c.ck_id@ == comm_tag(),
            c.ck_size == 18,
            c.num_channels == num_channels,
            c.num_sample_frames == num_sample_frames,
            c.sample_size == sample_size,
            c.sample_rate == sample_rate,
    {
        let ck_id: [u8; 4] = [0x43, 0x4f, 0x4d, 0x4d];
        assert(ck_id@ =~= comm_tag());
        Self { ck_id, ck_size: 18, num_channels, num_sample_frames, sample_size, sample_rate }
    }

    /// Appends the record to `buffer`.
    pub fn write_bytes(&self, buffer: &mut Vec<u8>) -> (r: Result<(), Error>)
        requires
            is_finite(self.sample_rate),
        ensures
            r is Ok,
            final(buffer)@ == old(buffer)@ + self.spec_bytes(),
    {
        let ghost before = buffer@;
        buffer.extend_from_slice(&self.ck_id);
        write_u32_be(buffer, self.ck_size);
        write_u16_be(buffer, self.num_channels);
        write_u32_be(buffer, self.num_sample_frames);
        write_u16_be(buffer, self.sample_size);
        let sample_rate = Extended::from_f64_bits(self.sample_rate).to_be_bytes();
        buffer.extend_from_slice(&sample_rate);
        assert(buffer@ =~= before + self.spec_bytes());
        Ok(())
    }
}

/// The sound chunk.
pub struct SoundChunk {
    /// The tag, `SSND`.
    pub ck_id: [u8; 4],
    /// The number of sample bytes.
    pub ck_size: u32,
    /// Byte offset to start playing at.
    pub offset: u32,
    /// Block size.
    pub block_size: u32,
    /// The sound bytes themselves.
    pub sound_data: Vec<u8>,
}

impl SoundChunk {
    /// The bytes of the record: tag, the size of what follows (the sample
    /// bytes and the two fields before them), offset and block size, all
    /// big-endian, and the sample bytes.
    pub open spec fn spec_bytes(&self) -> Seq<u8> {
        self.ck_id@ + be_bytes_u32((self.ck_size + 8) as u32) + be_bytes_u32(self.offset)
            + be_bytes_u32(self.block_size) + self.sound_data@
    }

    pub fn new(sound_data: Vec<u8>) -> (c: Self)
        requires
            sound_data.len() <= u32::MAX,
        ensures
            c.ck_id@ == ssnd_tag(),
            c.ck_size == sound_data.len(),
            c.offset == 0,
            c.block_size == 0,
            c.sound_data == sound_data,
    {
        let ck_id: [u8; 4] = [0x53, 0x53, 0x4e, 0x44];
        assert(ck_id@ =~= ssnd_tag());
        Self { ck_id, ck_size: sound_data.len() as u32, offset: 0, block_size: 0, sound_data }
    }

    /// The sample bytes, as they go into the container.
    pub fn samples_as_u8_bytes(&self) -> (bytes: Vec<u8>)
        ensures
            bytes@ == self.sound_data@,
    {
        let mut bytes: Vec<u8> = Vec::new();
        bytes.extend_from_slice(self.sound_data.as_slice());
        bytes
    }

    /// Appends the record to `buffer`. The size field is a signed 32-bit
    /// number, which bounds the record.
    pub fn write_bytes(&self, buffer: &mut Vec<u8>) -> (r: Result<(), Error>)
        requires
            self.ck_size + 8 <= i32::MAX,
        ensures
            r is Ok,
            final(buffer)@ == old(buffer)@ + self.spec_bytes(),
    {
        let ghost before = buffer@;
        buffer.extend_from_slice(&self.ck_id);
        write_i32_be(buffer, self.ck_size as i32 + 8);
        write_u32_be(buffer, self.offset);
        write_u32_be(buffer, self.block_size);
        let sound_data = self.samples_as_u8_bytes();
        buffer.extend_from_slice(sound_data.as_slice());
        assert(buffer@ =~= before + self.spec_bytes());
        Ok(())
    }
}

/// The whole container for `samples`: the FORM tag, the number of bytes that
/// follow the length field, the AIFF tag, the format record and the sound
/// record.
pub open spec fn spec_aiff(samples: Seq<i16>, header: AiffHeader) -> Seq<u8> {
    form_tag() + be_bytes_u32((28 + 18 + 2 * samples.len()) as u32) + aiff_tag() + comm_tag()
        + be_bytes_u32(18) + be_bytes_u16(header.num_channels) + be_bytes_u32(
        samples.len() as u32,
    ) + be_bytes_u16(16) + extended_bytes(spec_encode(header.sample_rate)) + ssnd_tag()
        + be_bytes_u32((2 * samples.len() + 8) as u32) + be_bytes_u32(0) + be_bytes_u32(0)
        + be_bytes(samples)
}

/// The length that the FORM record declares is the number of bytes that
/// follow it: 28 + 18 bytes of tags and fields, and two bytes per sample.
pub proof fn lemma_form_length(samples: Seq<i16>, header: AiffHeader)
    requires
        2 * samples.len() + 8 <= i32::MAX,
    ensures
        spec_aiff(samples, header).len() == 8 + (28 + 18 + 2 * samples.len()),
        spec_aiff(samples, header).subrange(0, 4) == form_tag(),
        spec_aiff(samples, header).subrange(4, 8) == be_bytes_u32(
            (28 + 18 + 2 * samples.len()) as u32,
        ),
        spec_aiff(samples, header).subrange(54, spec_aiff(samples, header).len() as int)
            == be_bytes(samples),
{
    let bytes = spec_aiff(samples, header);
    assert(bytes.len() == 54 + 2 * samples.len());
    assert(bytes.subrange(0, 4) =~= form_tag());
    assert(bytes.subrange(4, 8) =~= be_bytes_u32((28 + 18 + 2 * samples.len()) as u32));
    assert(bytes.subrange(54, bytes.len() as int) =~= be_bytes(samples));
}

/// Encodes 16-bit samples as an AIFF container.
#[derive(Debug)]
pub struct AiffEncoder {
    pub samples: Vec<i16>,
    pub header: AiffHeader,
}

impl AiffEncoder {
    /// What can be encoded: the sample rate is a finite number, and the
    /// sound record fits the signed 32-bit size field of the container.
    pub open spec fn encodable(&self) -> bool {
        &&& is_finite(self.header.sample_rate)
        &&& 2 * self.samples.len() + 8 <= i32::MAX
    }

    pub fn from_samples(samples: Vec<i16>, header: AiffHeader) -> (encoder: Self)
        ensures
            encoder.samples == samples,
            encoder.header == header,
    {
        Self { samples, header }
    }

    /// Tells whether `encode` can be called.
    pub fn is_encodable(&self) -> (b: bool)
        ensures
            b == self.encodable(),
    {
        self.header.sample_rate / 0x10_0000_0000_0000 % 0x800 != 0x7ff && self.samples.len()
            <= 0x3fff_fffb
    }

    /// The samples as bytes, each sample big-endian.
    pub fn convert_to_u8_bytes(&self) -> (bytes: Vec<u8>)
        ensures
            bytes@ == be_bytes(self.samples@),
    {
        let mut bytes: Vec<u8> = Vec::new();
        let mut i: usize = 0;
        assert(bytes@ =~= be_bytes(self.samples@.subrange(0, 0)));
        while i < self.samples.len()
            invariant
                i <= self.samples.len(),
                bytes@ == be_bytes(self.samples@.subrange(0, i as int)),
            decreases self.samples.len() - i,
        {
            let sample: i16 = self.samples[i];
            let pattern: u16 = if sample < 0 {
                (sample as i32 + 0x1_0000) as u16
            } else {
                sample as u16
            };
            bytes.push((pattern / 0x100) as u8);
            bytes.push((pattern % 0x100) as u8);
            i += 1;
            proof {
                let done = be_bytes(self.samples@.subrange(0, i as int));
                let prior = be_bytes(self.samples@.subrange(0, i - 1));
                assert(done =~= prior.push((pattern / 0x100) as u8).push((pattern % 0x100) as u8));
            }
        }
        assert(self.samples@.subrange(0, i as int) =~= self.samples@);
        bytes
    }

    /// The format record: the channels of the header, one sample frame per
    /// sample, 16 bits per sample, the sample rate of the header.
    pub fn comm_chunk(&self) -> (c: CommChunk)
        requires
            self.samples.len() <= u32::MAX,
        ensures
            c.ck_id@ == comm_tag(),
            c.ck_size == 18,
            c.num_channels == self.header.num_channels,
            c.num_sample_frames == self.samples.len(),
            c.sample_size == 16,
            c.sample_rate == self.header.sample_rate,
    {
        CommChunk::new(
            self.header.num_channels,
            self.samples.len() as u32,
            16,
            self.header.sample_rate,
        )
    }

    /// The sound record, with the samples as big-endian bytes.
    pub fn sound_chunk(&self) -> (c: SoundChunk)
        requires
            2 * self.samples.len() <= u32::MAX,
        ensures
            c.ck_id@ == ssnd_tag(),
            c.ck_size == 2 * self.samples.len(),
            c.offset == 0,
            c.block_size == 0,
            c.sound_data@ == be_bytes(self.samples@),
    {
        let bytes = self.convert_to_u8_bytes();
        SoundChunk::new(bytes)
    }

    /// Builds the container in memory, where no write can fail.
    pub fn encode(&self) -> (r: Result<Vec<u8>, Error>)
        requires
            self.encodable(),
        ensures
            r matches Ok(bytes) && bytes@ == spec_aiff(self.samples@, self.header),
    {
        let mut buffer: Vec<u8> = Vec::new();
        let form: [u8; 4] = [0x46, 0x4f, 0x52, 0x4d];
        let aiff: [u8; 4] = [0x41, 0x49, 0x46, 0x46];
        buffer.extend_from_slice(&form);
        // 28 bytes of tags and fields around the 18 bytes of the format record.
        let len: u32 = 28 + 18 + (self.samples.len() * 2) as u32;
        write_u32_be(&mut buffer, len);
        buffer.extend_from_slice(&aiff);
        let comm_chunk = self.comm_chunk();
        match comm_chunk.write_bytes(&mut buffer) {
            Err(e) => {
                return Err(e);
            },
            Ok(_) => {},
        }
        let sound_chunk = self.sound_chunk();
        match sound_chunk.write_bytes(&mut buffer) {
            Err(e) => {
                return Err(e);
            },
            Ok(_) => {},
        }
        assert(form@ =~= form_tag());
        assert(aiff@ =~= aiff_tag());
        assert(buffer@ =~= spec_aiff(self.samples@, self.header));
        Ok(buffer)
    }
}

} // verus!
