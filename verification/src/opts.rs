//! The configuration of a split, and its validating builder.
use vstd::prelude::*;
use crate::error::Error;
use crate::BytesPerMillisecond;

verus! {

/// A validated split configuration: a budget of samples per chunk, never
/// zero, and an optional silence threshold.
///
/// The threshold is the largest mean of squared amplitudes that a sub-frame
/// may have and still count as quiet. A level of `t` decibels relative to
/// the full scale of 16-bit samples is a mean square of
/// `10^(t / 10) * 32767^2`.
pub struct SplitOpts {
    frame_size: usize,
    silence_threshold: Option<u64>,
}

impl SplitOpts {
    #[verifier::type_invariant]
    spec fn positive_budget(self) -> bool {
        self.frame_size > 0
    }

    /// The budget: the largest number of samples in a chunk.
    pub closed spec fn spec_frame_size(&self) -> nat {
        self.frame_size as nat
    }

    pub closed spec fn spec_silence_threshold(&self) -> Option<u64> {
        self.silence_threshold
    }

    pub fn builder<C>() -> (b: SplitOptsBuilder<C>) where C: BytesPerMillisecond
        ensures
            b.codec is None,
            b.duration_chunk_criteria is None,
            b.memsize_chunk_criteria is None,
            b.silence_threshold is None,
    {
        SplitOptsBuilder::new()
    }

    pub fn silence_threshold(&self) -> (t: Option<u64>)
        ensures
            t == self.spec_silence_threshold(),
    {
        self.silence_threshold
    }

    pub fn frame_size(&self) -> (n: usize)
        ensures
            n == self.spec_frame_size(),
            n > 0,
    {
        proof {
            use_type_invariant(self);
        }
        self.frame_size
    }
}

/// Collects the options of a split. Exactly one of the two criteria, a
/// duration in milliseconds or a size in samples, has to be given.
pub struct SplitOptsBuilder<C> {
    pub codec: Option<C>,
    pub duration_chunk_criteria: Option<u64>,
    pub memsize_chunk_criteria: Option<usize>,
    /// The silence threshold. If None, there will be no silence threshold.
    pub silence_threshold: Option<u64>,
}

/// What building a configuration comes to.
pub enum BuildOutcome {
    /// The configuration is valid, with this budget.
    Budget(nat),
    /// Both criteria were given.
    Incompatible,
    /// The named field is missing, or holds nothing to work with.
    Missing(Seq<char>),
}

/// The budget of a duration: `bytes_per_ms * millis`, held to what a `usize`
/// can express.
pub open spec fn duration_budget(bytes_per_ms: nat, millis: nat) -> nat {
    if bytes_per_ms * millis > usize::MAX {
        usize::MAX as nat
    } else {
        bytes_per_ms * millis
    }
}

impl<C> SplitOptsBuilder<C> where C: BytesPerMillisecond {
    /// The rules of validation, in the order in which they are applied. A
    /// criterion of zero is no criterion, and a codec with less than one
    /// sample per millisecond is no codec.
    pub open spec fn outcome(self) -> BuildOutcome {
        if self.duration_chunk_criteria is Some && self.memsize_chunk_criteria is Some {
            BuildOutcome::Incompatible
        } else if self.codec is Some && self.codec->0.spec_bytes_per_ms() == 0 {
            BuildOutcome::Missing("codec"@)
        } else if self.duration_chunk_criteria is Some {
            if self.codec is None {
                BuildOutcome::Missing("codec"@)
            } else if self.duration_chunk_criteria->0 == 0 {
                BuildOutcome::Missing("duration_chunk_criteria"@)
            } else {
                BuildOutcome::Budget(
                    duration_budget(
                        self.codec->0.spec_bytes_per_ms(),
                        self.duration_chunk_criteria->0 as nat,
                    ),
                )
            }
        } else if self.memsize_chunk_criteria is Some && self.memsize_chunk_criteria->0 > 0 {
            BuildOutcome::Budget(self.memsize_chunk_criteria->0 as nat)
        } else {
            BuildOutcome::Missing("memsize_chunk_criteria"@)
        }
    }

    fn new() -> (b: Self)
        ensures
            b.codec is None,
            b.duration_chunk_criteria is None,
            b.memsize_chunk_criteria is None,
            b.silence_threshold is None,
    {
        Self::default()
    }

    pub fn codec(self, codec: C) -> (b: Self)
        ensures
            b.codec == Some(codec),
            b.duration_chunk_criteria == self.duration_chunk_criteria,
            b.memsize_chunk_criteria == self.memsize_chunk_criteria,
            b.silence_threshold == self.silence_threshold,
    {
        let mut b = self;
        b.codec = Some(codec);
        b
    }

    /// Asks for chunks of `millis` milliseconds.
    pub fn split_by_duration(self, millis: u64) -> (b: Self)
        ensures
            b.codec == self.codec,
            b.duration_chunk_criteria == Some(millis),
            b.memsize_chunk_criteria == self.memsize_chunk_criteria,
            b.silence_threshold == self.silence_threshold,
    {
        let mut b = self;
        b.duration_chunk_criteria = Some(millis);
        b
    }

    /// Asks for chunks of `size` samples.
    pub fn split_by_memsize(self, size: usize) -> (b: Self)
        ensures
            b.codec == self.codec,
            b.duration_chunk_criteria == self.duration_chunk_criteria,
            b.memsize_chunk_criteria == Some(size),
            b.silence_threshold == self.silence_threshold,
    {
        let mut b = self;
        b.memsize_chunk_criteria = Some(size);
        b
    }

    /// Asks for cuts at quiet places: `threshold` is the largest mean of
    /// squared amplitudes of a quiet sub-frame.
    pub fn silence_threshold(self, threshold: u64) -> (b: Self)
        ensures
            b.codec == self.codec,
            b.duration_chunk_criteria == self.duration_chunk_criteria,
            b.memsize_chunk_criteria == self.memsize_chunk_criteria,
            b.silence_threshold == Some(threshold),
    {
        let mut b = self;
        b.silence_threshold = Some(threshold);
        b
    }

    /// Validates the options and makes the configuration.
    pub fn build(self) -> (r: Result<SplitOpts, Error>)
        ensures
            match self.outcome() {
                BuildOutcome::Budget(n) => r matches Ok(opts) && opts.spec_frame_size() == n
                    && opts.spec_silence_threshold() == self.silence_threshold,
                BuildOutcome::Incompatible => r matches Err(Error::IncompatibleOptions(a, b))
                    && a@ == "duration_chunk_criteria"@ && b@ == "memsize_chunk_criteria"@,
                BuildOutcome::Missing(field) => r matches Err(Error::MissingBuilderField(f))
                    && f@ == field,
            },
    {
        if self.duration_chunk_criteria.is_some() && self.memsize_chunk_criteria.is_some() {
            return Err(
                Error::incompatible_options("duration_chunk_criteria", "memsize_chunk_criteria"),
            );
        }
        let rate: Option<usize> = match &self.codec {
            Some(codec) => Some(codec.bytes_per_ms()),
            None => None,
        };
        if rate == Some(0usize) {
            return Err(Error::missing_builder_field("codec"));
        }
        let frame_size: usize = match self.duration_chunk_criteria {
            Some(millis) => {
                match rate {
                    None => {
                        return Err(Error::missing_builder_field("codec"));
                    },
                    Some(bytes_per_ms) => {
                        if millis == 0 {
                            return Err(Error::missing_builder_field("duration_chunk_criteria"));
                        }
                        assert(bytes_per_ms as u128 * millis as u128 <= 0xffff_ffff_ffff_ffff
                            * 0xffff_ffff_ffff_ffff) by (nonlinear_arith)
                            requires
                                bytes_per_ms <= 0xffff_ffff_ffff_ffff,
                                millis <= 0xffff_ffff_ffff_ffff,
                        ;
                        assert(bytes_per_ms as u128 * millis as u128 > 0) by (nonlinear_arith)
                            requires
                                bytes_per_ms > 0,
                                millis > 0,
                        ;
                        let exact: u128 = bytes_per_ms as u128 * millis as u128;
                        if exact > usize::MAX as u128 {
                            usize::MAX
                        } else {
                            exact as usize
                        }
                    },
                }
            },
            None => {
                match self.memsize_chunk_criteria {
                    Some(memsize) => {
                        if memsize == 0 {
                            return Err(Error::missing_builder_field("memsize_chunk_criteria"));
                        }
                        memsize
                    },
                    None => {
                        return Err(Error::missing_builder_field("memsize_chunk_criteria"));
                    },
                }
            },
        };
        Ok(SplitOpts { frame_size, silence_threshold: self.silence_threshold })
    }
}

impl<C> Default for SplitOptsBuilder<C> {
    fn default() -> (b: Self)
        ensures
            b.codec is None,
            b.duration_chunk_criteria is None,
            b.memsize_chunk_criteria is None,
            b.silence_threshold is None,
    {
        Self {
            codec: None,
            duration_chunk_criteria: None,
            memsize_chunk_criteria: None,
            silence_threshold: None,
        }
    }
}

} // verus!
