//! Splitting a decoded AIFF stream, taken as its raw sample bytes.
use vstd::prelude::*;
use crate::error::Error;
use crate::formats::wav::{chunk_views, spec_split, split_samples};
use crate::opts::SplitOpts;
use crate::result::SplitResult;
use crate::{AudioSplitter, BytesPerMillisecond, CodecMetadata};

verus! {

/// The bytes of all packets, one packet after the other.
pub open spec fn joined(packets: Seq<Vec<u8>>) -> Seq<u8>
    decreases packets.len(),
{
    if packets.len() == 0 {
        Seq::empty()
    } else {
        joined(packets.drop_last()) + packets.last()@
    }
}

/// A decoded AIFF stream: the bytes of its packets, one packet after the
/// other, and its codec parameters.
pub struct AiffSplitter {
    samples: Vec<u8>,
    codec: CodecMetadata,
}

impl AiffSplitter {
    #[verifier::type_invariant]
    spec fn usable_rate(self) -> bool {
        self.codec.spec_bytes_per_ms() > 0
    }

    pub closed spec fn spec_samples(&self) -> Seq<u8> {
        self.samples@
    }

    pub closed spec fn spec_codec(&self) -> CodecMetadata {
        self.codec
    }

    /// Takes over what was decoded. A codec with less than one sample per
    /// millisecond has no timestamps and is left out.
    pub fn from_samples(samples: Vec<u8>, codec: CodecMetadata) -> (splitter: Self)
        requires
            codec.spec_bytes_per_ms() > 0,
        ensures
            splitter.spec_samples() == samples@,
            splitter.spec_codec() == codec,
    {
        Self { samples, codec }
    }

    /// Joins the packets of a stream. A stream that does not tell its codec
    /// parameters, or whose codec has less than one sample per millisecond,
    /// is reported as missing them.
    pub fn from_packets(packets: &Vec<Vec<u8>>, codec: Option<CodecMetadata>) -> (r: Result<
        Self,
        Error,
    >)
        ensures
            match codec {
                Some(c) if c.spec_bytes_per_ms() > 0 => r matches Ok(splitter)
                    && splitter.spec_samples() == joined(packets@) && splitter.spec_codec() == c,
                _ => r matches Err(Error::MissingBuilderField(f)) && f@ == "codec"@,
            },
    {
        let codec = match codec {
            Some(c) => c,
            None => {
                return Err(Error::missing_builder_field("codec"));
            },
        };
        if codec.bytes_per_ms() == 0 {
            return Err(Error::missing_builder_field("codec"));
        }
        let mut samples: Vec<u8> = Vec::new();
        let mut i: usize = 0;
        assert(packets@.subrange(0, 0) =~= Seq::<Vec<u8>>::empty());
        while i < packets.len()
            invariant
                i <= packets.len(),
                samples@ == joined(packets@.subrange(0, i as int)),
            decreases packets.len() - i,
        {
            proof {
                let next = packets@.subrange(0, i + 1);
                assert(next.drop_last() =~= packets@.subrange(0, i as int));
                assert(next.last() == packets@[i as int]);
            }
            samples.extend_from_slice(packets[i].as_slice());
            i += 1;
        }
        assert(packets@.subrange(0, i as int) =~= packets@);
        Ok(Self { samples, codec })
    }

    pub fn codec(&self) -> (codec: CodecMetadata)
        ensures
            codec == self.spec_codec(),
            codec.spec_bytes_per_ms() > 0,
    {
        proof {
            use_type_invariant(self);
        }
        self.codec
    }
}

impl AudioSplitter for AiffSplitter {
    type ByteSize = u8;

    type CodecParams = CodecMetadata;

    /// Splits the stream; this source has nothing to fail on.
    fn split_audio(&mut self, opts: SplitOpts) -> (r: Result<
        SplitResult<u8, CodecMetadata>,
        Error,
    >)
        ensures
            final(self).spec_samples() == old(self).spec_samples(),
            final(self).spec_codec() == old(self).spec_codec(),
            r matches Ok(result) && result.spec_codec() == old(self).spec_codec() && chunk_views(
                result.spec_chunks(),
            ) == spec_split(
                old(self).spec_samples(),
                old(self).spec_codec().spec_bytes_per_ms(),
                opts.spec_frame_size(),
                opts.spec_silence_threshold(),
            ),
    {
        proof {
            use_type_invariant(&*self);
        }
        let bytes_per_ms: usize = self.codec.bytes_per_ms();
        let chunks = split_samples(self.samples.as_slice(), bytes_per_ms, &opts);
        Ok(SplitResult::new(chunks, self.codec))
    }
}

} // verus!
