//! Splitting decoded PCM audio into bounded chunks, and packing PCM samples
//! into an interleaved AIFF container.
use vstd::prelude::*;

pub mod encoder;
pub mod error;
pub mod formats;
pub mod opts;
pub mod result;

pub use formats::wav::WavSplitter;
pub use result::AudioChunk;

verus! {

/// Something that knows how many samples one millisecond of its audio holds.
pub trait BytesPerMillisecond {
    /// The number of interleaved samples per millisecond.
    spec fn spec_bytes_per_ms(&self) -> nat;

    fn bytes_per_ms(&self) -> (r: usize)
        ensures
            r as nat == self.spec_bytes_per_ms(),
    ;
}

/// A source of decoded audio that can be cut into chunks.
pub trait AudioSplitter {
    type ByteSize: formats::common::Sample;

    type CodecParams: BytesPerMillisecond;

    fn split_audio(&mut self, opts: opts::SplitOpts) -> Result<
        result::SplitResult<Self::ByteSize, Self::CodecParams>,
        error::Error,
    >;
}

/// The codec parameters of a decoded PCM stream.
#[derive(Clone, Copy, Debug, PartialEq, Eq, Structural)]
pub struct CodecMetadata {
    /// Sample frames per second.
    pub sample_rate: u32,
    /// Interleaved channels per sample frame.
    pub channels: u16,
    /// Width of one sample.
    pub bits_per_sample: u16,
}

/// `floor(sample_rate * channels / 1000)`.
pub open spec fn samples_per_ms(sample_rate: nat, channels: nat) -> nat {
    sample_rate * channels / 1000
}

impl BytesPerMillisecond for CodecMetadata {
    /// `floor(sample_rate * channels / 1000)`, held to what a `usize` can
    /// express.
    open spec fn spec_bytes_per_ms(&self) -> nat {
        let exact = samples_per_ms(self.sample_rate as nat, self.channels as nat);
        if exact > usize::MAX {
            usize::MAX as nat
        } else {
            exact
        }
    }

    fn bytes_per_ms(&self) -> (r: usize) {
        assert(self.sample_rate as u64 * self.channels as u64 <= 0xffff_ffff * 0xffff)
            by (nonlinear_arith)
            requires
                self.sample_rate <= 0xffff_ffff,
                self.channels <= 0xffff,
        ;
        let product: u64 = self.sample_rate as u64 * self.channels as u64;
        let exact: u64 = product / 1000;
        if exact > usize::MAX as u64 {
            usize::MAX
        } else {
            exact as usize
        }
    }
}

} // verus!
