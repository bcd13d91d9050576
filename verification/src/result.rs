//! What a split produces: chunks of samples with their timestamps.
use vstd::prelude::*;

verus! {

/// The mathematical content of an [`AudioChunk`].
pub struct ChunkView<T> {
    pub samples: Seq<T>,
    pub timestamp_start: nat,
    pub timestamp_end: nat,
}

/// A copied, contiguous run of samples, with the millisecond range it covers.
pub struct AudioChunk<T> {
    bytes: Vec<T>,
    timestamp_start: usize,
    timestamp_end: usize,
}

impl<T> View for AudioChunk<T> {
    type V = ChunkView<T>;

    closed spec fn view(&self) -> ChunkView<T> {
        ChunkView {
            samples: self.bytes@,
            timestamp_start: self.timestamp_start as nat,
            timestamp_end: self.timestamp_end as nat,
        }
    }
}

impl<T: Copy> AudioChunk<T> {
    /// Copies `data` into a new chunk.
    pub fn new(data: &[T], timestamp_start: usize, timestamp_end: usize) -> (chunk: Self)
        ensures
            chunk@.samples == data@,
            chunk@.timestamp_start == timestamp_start,
            chunk@.timestamp_end == timestamp_end,
    {
        let mut bytes: Vec<T> = Vec::new();
        let mut i: usize = 0;
        while i < data.len()
            invariant
                i <= data.len(),
                bytes@ == data@.subrange(0, i as int),
            decreases data.len() - i,
        {
            bytes.push(data[i]);
            i += 1;
            assert(bytes@ =~= data@.subrange(0, i as int));
        }
        assert(data@.subrange(0, i as int) =~= data@);
        Self { bytes, timestamp_start, timestamp_end }
    }

    pub fn timestamp_start(&self) -> (t: usize)
        ensures
            t == self@.timestamp_start,
    {
        self.timestamp_start
    }

    pub fn timestamp_end(&self) -> (t: usize)
        ensures
            t == self@.timestamp_end,
    {
        self.timestamp_end
    }

    /// The samples of this chunk.
    pub fn as_slice(&self) -> (samples: &[T])
        ensures
            samples@ == self@.samples,
    {
        self.bytes.as_slice()
    }

    /// The number of samples in this chunk.
    pub fn len(&self) -> (n: usize)
        ensures
            n == self@.samples.len(),
    {
        self.bytes.len()
    }
}

/// The unsigned 16-bit number whose two's complement bit pattern is that of
/// `sample`.
pub open spec fn bit_pattern(sample: i16) -> int {
    if sample < 0 {
        sample + 0x1_0000
    } else {
        sample as int
    }
}

/// The samples as bytes, each sample little-endian: low byte, then high byte.
pub open spec fn le_bytes(samples: Seq<i16>) -> Seq<u8> {
    Seq::new(
        2 * samples.len(),
        |i: int|
            if i % 2 == 0 {
                (bit_pattern(samples[i / 2]) % 0x100) as u8
            } else {
                (bit_pattern(samples[i / 2]) / 0x100) as u8
            },
    )
}

/// The little-endian bytes of all chunks, one chunk after the other.
pub open spec fn chunks_le_bytes(chunks: Seq<AudioChunk<i16>>) -> Seq<u8>
    decreases chunks.len(),
{
    if chunks.len() == 0 {
        Seq::empty()
    } else {
        chunks_le_bytes(chunks.drop_last()) + le_bytes(chunks.last()@.samples)
    }
}

/// Appends the little-endian bytes of `samples` to `out`.
fn push_le_bytes(out: &mut Vec<u8>, samples: &Vec<i16>)
    ensures
        final(out)@ == old(out)@ + le_bytes(samples@),
{
    let ghost before = out@;
    let mut i: usize = 0;
    assert(out@ =~= before + le_bytes(samples@.subrange(0, 0)));
    while i < samples.len()
        invariant
            i <= samples.len(),
            out@ == before + le_bytes(samples@.subrange(0, i as int)),
        decreases samples.len() - i,
    {
        let sample: i16 = samples[i];
        let pattern: u16 = if sample < 0 {
            (sample as i32 + 0x1_0000) as u16
        } else {
            sample as u16
        };
        let ghost so_far = out@;
        out.push((pattern % 0x100) as u8);
        out.push((pattern / 0x100) as u8);
        i += 1;
        proof {
            let done = le_bytes(samples@.subrange(0, i as int));
            let prior = le_bytes(samples@.subrange(0, i - 1));
            assert(done =~= prior.push((pattern % 0x100) as u8).push((pattern / 0x100) as u8));
        }
    }
    assert(samples@.subrange(0, i as int) =~= samples@);
}

impl AudioChunk<i16> {
    /// The samples as bytes, each sample little-endian.
    pub fn to_bytes_vec(&self) -> (bytes: Vec<u8>)
        ensures
            bytes@ == le_bytes(self@.samples),
    {
        let mut bytes: Vec<u8> = Vec::new();
        push_le_bytes(&mut bytes, &self.bytes);
        bytes
    }
}

/// The chunks of a split, with the codec parameters of their source.
pub struct SplitResult<T, C> {
    chunks: Vec<AudioChunk<T>>,
    codec_params: C,
}

impl<T, C> SplitResult<T, C> {
    /// The chunks, in stream order.
    pub closed spec fn spec_chunks(&self) -> Seq<AudioChunk<T>> {
        self.chunks@
    }

    pub closed spec fn spec_codec(&self) -> C {
        self.codec_params
    }

    pub fn new(chunks: Vec<AudioChunk<T>>, codec_params: C) -> (r: Self)
        ensures
            r.spec_chunks() == chunks@,
            r.spec_codec() == codec_params,
    {
        Self { chunks, codec_params }
    }

    pub fn chunks(&self) -> (chunks: &[AudioChunk<T>])
        ensures
            chunks@ == self.spec_chunks(),
    {
        self.chunks.as_slice()
    }

    pub fn into_chunks(self) -> (chunks: Vec<AudioChunk<T>>)
        ensures
            chunks@ == self.spec_chunks(),
    {
        self.chunks
    }

    /// The number of chunks.
    pub fn len(&self) -> (n: usize)
        ensures
            n == self.spec_chunks().len(),
    {
        self.chunks.len()
    }

    pub fn iter(&self) -> (it: std::slice::Iter<'_, AudioChunk<T>>)
        ensures
            vstd::std_specs::slice::into_iter_elts(it) == self.spec_chunks(),
    {
        self.chunks.as_slice().iter()
    }

    pub fn into_iter(self) -> (it: std::vec::IntoIter<AudioChunk<T>>)
        ensures
            vstd::std_specs::iter::IteratorSpec::remaining(&it) == self.spec_chunks(),
    {
        self.chunks.into_iter()
    }

    pub fn get_codec(&self) -> (codec: &C)
        ensures
            *codec == self.spec_codec(),
    {
        &self.codec_params
    }

    pub fn get_codec_owned(&self) -> (codec: C) where C: Clone
        ensures
            cloned(self.spec_codec(), codec),
    {
        self.codec_params.clone()
    }
}

impl<C> SplitResult<i16, C> {
    /// The little-endian bytes of all chunks, in stream order.
    pub fn into_u8_vec(self) -> (bytes: Vec<u8>)
        ensures
            bytes@ == chunks_le_bytes(self.spec_chunks()),
    {
        let mut bytes: Vec<u8> = Vec::new();
        let mut i: usize = 0;
        assert(self.chunks@.subrange(0, 0) =~= Seq::<AudioChunk<i16>>::empty());
        while i < self.chunks.len()
            invariant
                i <= self.chunks.len(),
                bytes@ == chunks_le_bytes(self.chunks@.subrange(0, i as int)),
            decreases self.chunks.len() - i,
        {
            proof {
                let next = self.chunks@.subrange(0, i + 1);
                assert(next.drop_last() =~= self.chunks@.subrange(0, i as int));
                assert(next.last() == self.chunks@[i as int]);
            }
            push_le_bytes(&mut bytes, &self.chunks[i].bytes);
            i += 1;
        }
        assert(self.chunks@.subrange(0, i as int) =~= self.chunks@);
        bytes
    }
}

} // verus!
