//! The splitting engine: cuts a buffer of samples into chunks that respect
//! a budget and prefer quiet places.
use vstd::prelude::*;
use crate::error::Error;
use crate::formats::common::{
    bytes_to_timestamp, find_silent_position, frame_at, frame_count, is_quiet, latest_quiet_frame,
    lemma_frame_starts_inside, lemma_latest_quiet_frame, silent_position, Sample,
};
use crate::opts::SplitOpts;
use crate::result::{AudioChunk, ChunkView, SplitResult};
use crate::{AudioSplitter, BytesPerMillisecond, CodecMetadata};

verus! {

/// The length of the sub-frames in which silence is looked for: 50 ms of
/// samples, held to what a `usize` can express.
pub open spec fn search_frame_size(bytes_per_ms: nat) -> nat {
    if bytes_per_ms * 50 > usize::MAX {
        usize::MAX as nat
    } else {
        bytes_per_ms * 50
    }
}

/// Where the chunk that starts at `offset` ends.
///
/// What is left of the buffer is taken whole when it fits the budget.
/// Otherwise the window of `budget` samples is cut at its end, or, with a
/// threshold, at the start of its last quiet sub-frame. A quiet sub-frame at
/// the very start of the window offers no cut, and the window is cut at its
/// end.
pub open spec fn next_cut<T: Sample>(
    samples: Seq<T>,
    offset: nat,
    budget: nat,
    frame_size: nat,
    threshold: Option<u64>,
) -> nat {
    if samples.len() - offset <= budget {
        samples.len()
    } else {
        let window_end = offset + budget;
        match threshold {
            None => window_end,
            Some(ceiling) => {
                let position = silent_position(
                    samples.subrange(offset as int, window_end as int),
                    frame_size,
                    ceiling,
                );
                if position == 0 {
                    window_end
                } else {
                    offset + position
                }
            },
        }
    }
}

/// The chunk that holds `samples[start..end]`.
pub open spec fn chunk_between<T>(samples: Seq<T>, start: nat, end: nat, bytes_per_ms: nat)
    -> ChunkView<T> {
    ChunkView {
        samples: samples.subrange(start as int, end as int),
        timestamp_start: start / bytes_per_ms,
        timestamp_end: end / bytes_per_ms,
    }
}

/// The chunks into which the samples from `offset` on are cut.
pub open spec fn split_from<T: Sample>(
    samples: Seq<T>,
    offset: nat,
    bytes_per_ms: nat,
    budget: nat,
    threshold: Option<u64>,
) -> Seq<ChunkView<T>>
    decreases samples.len() - offset,
    via split_from_decreases::<T>
{
    if offset >= samples.len() || budget == 0 || bytes_per_ms == 0 {
        Seq::empty()
    } else {
        let cut = next_cut(samples, offset, budget, search_frame_size(bytes_per_ms), threshold);
        seq![chunk_between(samples, offset, cut, bytes_per_ms)] + split_from(
            samples,
            cut,
            bytes_per_ms,
            budget,
            threshold,
        )
    }
}

#[via_fn]
proof fn split_from_decreases<T: Sample>(
    samples: Seq<T>,
    offset: nat,
    bytes_per_ms: nat,
    budget: nat,
    threshold: Option<u64>,
) {
    if offset < samples.len() && budget > 0 && bytes_per_ms > 0 {
        lemma_next_cut_bounds(
            samples,
            offset,
            budget,
            search_frame_size(bytes_per_ms),
            threshold,
        );
    }
}

/// The offsets at which the chunks from `offset` on start, and, last, the
/// offset at which the last of them ends.
pub open spec fn cut_points<T: Sample>(
    samples: Seq<T>,
    offset: nat,
    bytes_per_ms: nat,
    budget: nat,
    threshold: Option<u64>,
) -> Seq<nat>
    decreases samples.len() - offset,
    via cut_points_decreases::<T>
{
    if offset >= samples.len() || budget == 0 || bytes_per_ms == 0 {
        seq![offset]
    } else {
        let cut = next_cut(samples, offset, budget, search_frame_size(bytes_per_ms), threshold);
        seq![offset] + cut_points(samples, cut, bytes_per_ms, budget, threshold)
    }
}

#[via_fn]
proof fn cut_points_decreases<T: Sample>(
    samples: Seq<T>,
    offset: nat,
    bytes_per_ms: nat,
    budget: nat,
    threshold: Option<u64>,
) {
    if offset < samples.len() && budget > 0 && bytes_per_ms > 0 {
        lemma_next_cut_bounds(
            samples,
            offset,
            budget,
            search_frame_size(bytes_per_ms),
            threshold,
        );
    }
}

/// The chunks into which a whole buffer is cut.
pub open spec fn spec_split<T: Sample>(
    samples: Seq<T>,
    bytes_per_ms: nat,
    budget: nat,
    threshold: Option<u64>,
) -> Seq<ChunkView<T>> {
    split_from(samples, 0, bytes_per_ms, budget, threshold)
}

/// The views of a sequence of chunks.
pub open spec fn chunk_views<T>(chunks: Seq<AudioChunk<T>>) -> Seq<ChunkView<T>> {
    chunks.map_values(|c: AudioChunk<T>| c@)
}

/// The samples of all chunks, one after the other.
pub open spec fn concat_samples<T>(chunks: Seq<ChunkView<T>>) -> Seq<T>
    decreases chunks.len(),
{
    if chunks.len() == 0 {
        Seq::empty()
    } else {
        chunks[0].samples + concat_samples(chunks.drop_first())
    }
}

/// Every cut lies beyond the offset it starts from, within the budget and
/// within the buffer.
pub proof fn lemma_next_cut_bounds<T: Sample>(
    samples: Seq<T>,
    offset: nat,
    budget: nat,
    frame_size: nat,
    threshold: Option<u64>,
)
    requires
        offset < samples.len(),
        budget > 0,
        frame_size > 0,
    ensures
        offset < next_cut(samples, offset, budget, frame_size, threshold) <= samples.len(),
        next_cut(samples, offset, budget, frame_size, threshold) <= offset + budget,
{
    if samples.len() - offset > budget {
        if let Some(ceiling) = threshold {
            let window = samples.subrange(offset as int, (offset + budget) as int);
            crate::formats::common::lemma_silent_position_bound(window, frame_size, ceiling);
        }
    }
}

/// Silence is preferred, and the latest silence first: where a sub-frame
/// after the first of the window is quiet, the cut falls on the start of the
/// last quiet sub-frame of the window.
pub proof fn lemma_cut_at_latest_silence<T: Sample>(
    samples: Seq<T>,
    offset: nat,
    budget: nat,
    frame_size: nat,
    ceiling: u64,
    i: nat,
)
    requires
        frame_size > 0,
        samples.len() - offset > budget,
        0 < i < frame_count(budget, frame_size),
        is_quiet(
            frame_at(
                samples.subrange(offset as int, (offset + budget) as int),
                frame_size,
                i,
            ),
            ceiling,
        ),
    ensures
        ({
            let window = samples.subrange(offset as int, (offset + budget) as int);
            let cut = next_cut(samples, offset, budget, frame_size, Some(ceiling));
            let j = ((cut - offset) / (frame_size as int)) as nat;
            &&& cut == offset + j * frame_size
            &&& i <= j < frame_count(budget, frame_size)
            &&& is_quiet(frame_at(window, frame_size, j), ceiling)
            &&& forall|k: nat|
                j < k < frame_count(budget, frame_size) ==> !is_quiet(
                    #[trigger] frame_at(window, frame_size, k),
                    ceiling,
                )
        }),
{
    let window = samples.subrange(offset as int, (offset + budget) as int);
    let count = frame_count(budget, frame_size);
    lemma_latest_quiet_frame(window, frame_size, ceiling, count);
    let latest = latest_quiet_frame(window, frame_size, ceiling, count);
    assert(latest is Some);
    let j = latest->0;
    assert(i <= j);
    lemma_frame_starts_inside(budget, frame_size, j);
    assert(j * frame_size > 0) by (nonlinear_arith)
        requires
            j > 0,
            frame_size > 0,
    ;
    vstd::arithmetic::div_mod::lemma_div_by_multiple(j as int, frame_size as int);
}

/// Splitting is lossless: the samples of the chunks, one after the other, are
/// the samples of the buffer from `offset` on.
pub proof fn lemma_split_lossless<T: Sample>(
    samples: Seq<T>,
    offset: nat,
    bytes_per_ms: nat,
    budget: nat,
    threshold: Option<u64>,
)
    requires
        offset <= samples.len(),
        bytes_per_ms > 0,
        budget > 0,
    ensures
        concat_samples(split_from(samples, offset, bytes_per_ms, budget, threshold))
            == samples.subrange(offset as int, samples.len() as int),
    decreases samples.len() - offset,
{
    let chunks = split_from(samples, offset, bytes_per_ms, budget, threshold);
    if offset >= samples.len() {
        assert(samples.subrange(offset as int, samples.len() as int) =~= Seq::<T>::empty());
    } else {
        let frame_size = search_frame_size(bytes_per_ms);
        let cut = next_cut(samples, offset, budget, frame_size, threshold);
        lemma_next_cut_bounds(samples, offset, budget, frame_size, threshold);
        lemma_split_lossless(samples, cut, bytes_per_ms, budget, threshold);
        let rest = split_from(samples, cut, bytes_per_ms, budget, threshold);
        assert(chunks.drop_first() =~= rest);
        assert(samples.subrange(offset as int, cut as int) + samples.subrange(
            cut as int,
            samples.len() as int,
        ) =~= samples.subrange(offset as int, samples.len() as int));
    }
}

/// Chunks neither overlap nor leave a gap: each chunk holds the samples
/// between two cut points that follow each other, the cut points grow
/// strictly, the first is the offset at which the split starts and the last
/// is the end of the buffer.
pub proof fn lemma_split_boundaries<T: Sample>(
    samples: Seq<T>,
    offset: nat,
    bytes_per_ms: nat,
    budget: nat,
    threshold: Option<u64>,
)
    requires
        offset <= samples.len(),
        bytes_per_ms > 0,
        budget > 0,
    ensures
        ({
            let chunks = split_from(samples, offset, bytes_per_ms, budget, threshold);
            let cuts = cut_points(samples, offset, bytes_per_ms, budget, threshold);
            &&& cuts.len() == chunks.len() + 1
            &&& cuts[0] == offset
            &&& cuts.last() == samples.len()
            &&& forall|i: int| 0 <= i < chunks.len() ==> (#[trigger] cuts[i]) < cuts[i + 1]
            &&& forall|i: int|
                0 <= i < chunks.len() ==> #[trigger] chunks[i] == chunk_between(
                    samples,
                    cuts[i],
                    cuts[i + 1],
                    bytes_per_ms,
                )
        }),
    decreases samples.len() - offset,
{
    let chunks = split_from(samples, offset, bytes_per_ms, budget, threshold);
    let cuts = cut_points(samples, offset, bytes_per_ms, budget, threshold);
    if offset < samples.len() {
        let frame_size = search_frame_size(bytes_per_ms);
        let cut = next_cut(samples, offset, budget, frame_size, threshold);
        lemma_next_cut_bounds(samples, offset, budget, frame_size, threshold);
        lemma_split_boundaries(samples, cut, bytes_per_ms, budget, threshold);
        let rest = split_from(samples, cut, bytes_per_ms, budget, threshold);
        let rest_cuts = cut_points(samples, cut, bytes_per_ms, budget, threshold);
        assert(chunks[0] == chunk_between(samples, offset, cut, bytes_per_ms));
        assert(cuts =~= seq![offset] + rest_cuts);
        assert(chunks.len() == rest.len() + 1);
        assert(cuts[1] == rest_cuts[0]);
        assert(cuts.last() == rest_cuts.last());
        assert forall|i: int| 0 <= i < chunks.len() implies (#[trigger] cuts[i]) < cuts[i
            + 1] by {
            if i > 0 {
                assert(cuts[i] == rest_cuts[i - 1]);
                assert(cuts[i + 1] == rest_cuts[i]);
            }
        }
        assert forall|i: int| 0 <= i < chunks.len() implies #[trigger] chunks[i] == chunk_between(
            samples,
            cuts[i],
            cuts[i + 1],
            bytes_per_ms,
        ) by {
            if i > 0 {
                assert(chunks[i] == rest[i - 1]);
                assert(cuts[i] == rest_cuts[i - 1]);
                assert(cuts[i + 1] == rest_cuts[i]);
            }
        }
    } else {
        assert(cuts =~= seq![offset]);
        assert(chunks.len() == 0);
    }
}

/// Chunks follow each other and time never runs backwards: each chunk ends
/// at the millisecond at which the next one starts, no chunk ends before it
/// starts, the first starts where the split starts and the last ends with
/// the buffer.
pub proof fn lemma_split_contiguous<T: Sample>(
    samples: Seq<T>,
    offset: nat,
    bytes_per_ms: nat,
    budget: nat,
    threshold: Option<u64>,
)
    requires
        offset <= samples.len(),
        bytes_per_ms > 0,
        budget > 0,
    ensures
        ({
            let chunks = split_from(samples, offset, bytes_per_ms, budget, threshold);
            &&& (offset < samples.len() <==> chunks.len() > 0)
            &&& chunks.len() > 0 ==> chunks[0].timestamp_start == offset / bytes_per_ms
            &&& chunks.len() > 0 ==> chunks.last().timestamp_end == samples.len() / bytes_per_ms
            &&& forall|i: int|
                0 <= i < chunks.len() ==> (#[trigger] chunks[i]).timestamp_start
                    <= chunks[i].timestamp_end
            &&& forall|i: int|
                0 <= i < chunks.len() - 1 ==> (#[trigger] chunks[i]).timestamp_end == chunks[i
                    + 1].timestamp_start
        }),
    decreases samples.len() - offset,
{
    let chunks = split_from(samples, offset, bytes_per_ms, budget, threshold);
    if offset < samples.len() {
        let frame_size = search_frame_size(bytes_per_ms);
        let cut = next_cut(samples, offset, budget, frame_size, threshold);
        lemma_next_cut_bounds(samples, offset, budget, frame_size, threshold);
        lemma_split_contiguous(samples, cut, bytes_per_ms, budget, threshold);
        let rest = split_from(samples, cut, bytes_per_ms, budget, threshold);
        vstd::arithmetic::div_mod::lemma_div_is_ordered(
            offset as int,
            cut as int,
            bytes_per_ms as int,
        );
        assert(chunks[0] == chunk_between(samples, offset, cut, bytes_per_ms));
        assert forall|i: int| 1 <= i < chunks.len() implies #[trigger] chunks[i] == rest[i
            - 1] by {}
        assert forall|i: int| 0 <= i < chunks.len() - 1 implies (#[trigger] chunks[i]).timestamp_end
            == chunks[i + 1].timestamp_start by {
            if i > 0 {
                assert(chunks[i] == rest[i - 1]);
                assert(chunks[i + 1] == rest[i]);
            } else {
                assert(chunks[1] == rest[0]);
            }
        }
    }
}

/// The budget is respected: no chunk is empty, and none holds more samples
/// than the budget allows.
pub proof fn lemma_split_within_budget<T: Sample>(
    samples: Seq<T>,
    offset: nat,
    bytes_per_ms: nat,
    budget: nat,
    threshold: Option<u64>,
)
    requires
        offset <= samples.len(),
        bytes_per_ms > 0,
        budget > 0,
    ensures
        forall|i: int|
            0 <= i < split_from(samples, offset, bytes_per_ms, budget, threshold).len() ==> 0 < (
            #[trigger] split_from(
                samples,
                offset,
                bytes_per_ms,
                budget,
                threshold,
            )[i]).samples.len() <= budget,
    decreases samples.len() - offset,
{
    let chunks = split_from(samples, offset, bytes_per_ms, budget, threshold);
    if offset < samples.len() {
        let frame_size = search_frame_size(bytes_per_ms);
        let cut = next_cut(samples, offset, budget, frame_size, threshold);
        lemma_next_cut_bounds(samples, offset, budget, frame_size, threshold);
        lemma_split_within_budget(samples, cut, bytes_per_ms, budget, threshold);
        let rest = split_from(samples, cut, bytes_per_ms, budget, threshold);
        assert(chunks[0] == chunk_between(samples, offset, cut, bytes_per_ms));
        assert forall|i: int| 0 <= i < chunks.len() implies 0 < (#[trigger] chunks[i]).samples.len()
            <= budget by {
            if i > 0 {
                assert(chunks[i] == rest[i - 1]);
            }
        }
    }
}

/// Without a silence threshold every chunk but the last holds exactly
/// `budget` samples, and there are `ceil(len / budget)` chunks.
pub proof fn lemma_split_without_threshold<T: Sample>(
    samples: Seq<T>,
    offset: nat,
    bytes_per_ms: nat,
    budget: nat,
)
    requires
        offset <= samples.len(),
        bytes_per_ms > 0,
        budget > 0,
    ensures
        ({
            let chunks = split_from(samples, offset, bytes_per_ms, budget, None);
            &&& chunks.len() == ((samples.len() - offset) + budget - 1) / (budget as int)
            &&& forall|i: int|
                0 <= i < chunks.len() - 1 ==> (#[trigger] chunks[i]).samples.len() == budget
        }),
    decreases samples.len() - offset,
{
    let chunks = split_from::<T>(samples, offset, bytes_per_ms, budget, None);
    let left = samples.len() - offset;
    if offset < samples.len() {
        let frame_size = search_frame_size(bytes_per_ms);
        let cut = next_cut::<T>(samples, offset, budget, frame_size, None);
        lemma_split_without_threshold(samples, cut, bytes_per_ms, budget);
        let rest = split_from::<T>(samples, cut, bytes_per_ms, budget, None);
        assert(chunks[0] == chunk_between(samples, offset, cut, bytes_per_ms));
        assert forall|i: int| 0 <= i < chunks.len() - 1 implies (#[trigger] chunks[i]).samples.len()
            == budget by {
            if i > 0 {
                assert(chunks[i] == rest[i - 1]);
            }
        }
        if left <= budget {
            assert((left + budget - 1) / (budget as int) == 1) by (nonlinear_arith)
                requires
                    0 < left <= budget,
            ;
        } else {
            assert((left + budget - 1) / (budget as int) == (left - budget + budget - 1) / (
            budget as int) + 1) by (nonlinear_arith)
                requires
                    left > budget > 0,
            ;
        }
    } else {
        assert((0 + budget - 1) / (budget as int) == 0) by (nonlinear_arith)
            requires
                budget > 0,
        ;
    }
}

/// Cuts `samples` into chunks of at most `opts.frame_size()` samples. With a
/// silence threshold, each cut is moved back to the start of the last quiet
/// 50 ms sub-frame of its window, where there is one.
pub fn split_samples<T: Sample>(samples: &[T], bytes_per_ms: usize, opts: &SplitOpts) -> (chunks:
    Vec<AudioChunk<T>>)
    requires
        bytes_per_ms > 0,
    ensures
        chunk_views(chunks@) == spec_split(
            samples@,
            bytes_per_ms as nat,
            opts.spec_frame_size(),
            opts.spec_silence_threshold(),
        ),
        concat_samples(chunk_views(chunks@)) == samples@,
        forall|i: int|
            0 <= i < chunks.len() ==> 0 < (#[trigger] chunks[i])@.samples.len()
                <= opts.spec_frame_size(),
        forall|i: int|
            0 <= i < chunks.len() ==> (#[trigger] chunks[i])@.timestamp_start
                <= chunks[i]@.timestamp_end,
        forall|i: int|
            0 <= i < chunks.len() - 1 ==> (#[trigger] chunks[i])@.timestamp_end == chunks[i
                + 1]@.timestamp_start,
        chunks.len() > 0 ==> chunks[0]@.timestamp_start == 0 && chunks[chunks.len()
            - 1]@.timestamp_end == samples.len() / bytes_per_ms,
{
    let byte_limit: usize = opts.frame_size();
    let threshold: Option<u64> = opts.silence_threshold();
    let frame_size: usize = if bytes_per_ms > usize::MAX / 50 {
        usize::MAX
    } else {
        bytes_per_ms * 50
    };
    let total: usize = samples.len();
    let mut bigvec: Vec<AudioChunk<T>> = Vec::new();
    let mut offset: usize = 0;
    assert(chunk_views(bigvec@) =~= Seq::<ChunkView<T>>::empty());
    while offset < total
        invariant
            total == samples.len(),
            offset <= total,
            bytes_per_ms > 0,
            byte_limit > 0,
            byte_limit == opts.spec_frame_size(),
            threshold == opts.spec_silence_threshold(),
            frame_size == search_frame_size(bytes_per_ms as nat),
            frame_size > 0,
            chunk_views(bigvec@) + split_from(
                samples@,
                offset as nat,
                bytes_per_ms as nat,
                byte_limit as nat,
                threshold,
            ) == spec_split(samples@, bytes_per_ms as nat, byte_limit as nat, threshold),
        decreases total - offset,
    {
        proof {
            lemma_next_cut_bounds(
                samples@,
                offset as nat,
                byte_limit as nat,
                frame_size as nat,
                threshold,
            );
        }
        let pos: usize = if total - offset <= byte_limit {
            total
        } else {
            let end_pos: usize = offset + byte_limit;
            match threshold {
                Some(ceiling) => {
                    match find_silent_position(&samples[offset..end_pos], frame_size, ceiling) {
                        Some(found) => if found == 0 {
                            end_pos
                        } else {
                            offset + found
                        },
                        None => end_pos,
                    }
                },
                None => end_pos,
            }
        };
        assert(pos == next_cut(
            samples@,
            offset as nat,
            byte_limit as nat,
            frame_size as nat,
            threshold,
        ));
        let timestamp_start = bytes_to_timestamp(offset, bytes_per_ms);
        let timestamp_end = bytes_to_timestamp(pos, bytes_per_ms);
        let audio_chunk = AudioChunk::new(&samples[offset..pos], timestamp_start, timestamp_end);
        proof {
            let before = chunk_views(bigvec@);
            let added = chunk_between(samples@, offset as nat, pos as nat, bytes_per_ms as nat);
            assert(audio_chunk@ == added);
            assert(chunk_views(bigvec@.push(audio_chunk)) =~= before.push(added));
            assert(before.push(added) + split_from(
                samples@,
                pos as nat,
                bytes_per_ms as nat,
                byte_limit as nat,
                threshold,
            ) =~= before + split_from(
                samples@,
                offset as nat,
                bytes_per_ms as nat,
                byte_limit as nat,
                threshold,
            ));
        }
        bigvec.push(audio_chunk);
        offset = pos;
    }
    proof {
        let views = chunk_views(bigvec@);
        assert(views + Seq::<ChunkView<T>>::empty() =~= views);
        lemma_split_lossless(samples@, 0, bytes_per_ms as nat, byte_limit as nat, threshold);
        lemma_split_contiguous(samples@, 0, bytes_per_ms as nat, byte_limit as nat, threshold);
        lemma_split_within_budget(samples@, 0, bytes_per_ms as nat, byte_limit as nat, threshold);
        assert(samples@.subrange(0, samples@.len() as int) =~= samples@);
        assert forall|i: int| 0 <= i < bigvec.len() implies (#[trigger] bigvec[i])@
            == views[i] by {}
        assert(0nat / (bytes_per_ms as nat) == 0);
    }
    bigvec
}

/// Compares the number of samples that were decoded with the number that
/// the source declared.
pub fn check_byte_length(decoded: usize, declared: u32) -> (r: Result<(), Error>)
    ensures
        decoded == declared ==> r is Ok,
        decoded != declared ==> (r matches Err(Error::InconsistentByteLength(a, b)) && a == decoded
            && b == declared),
{
    if decoded != declared as usize {
        return Err(Error::inconsistent_byte_length(decoded, declared as usize));
    }
    Ok(())
}

/// What the WAV decoder makes of a stream: the codec parameters and the
/// number of samples of its header, and one entry for each sample that the
/// header declares, `None` where that sample could not be read as 16 bits.
pub struct DecodedWav {
    pub codec: CodecMetadata,
    pub declared_len: u32,
    pub samples: Vec<Option<i16>>,
}

/// The mathematical content of a [`DecodedWav`].
pub struct WavContents {
    pub codec: CodecMetadata,
    pub declared_len: u32,
    pub samples: Seq<Option<i16>>,
}

impl View for DecodedWav {
    type V = WavContents;

    open spec fn view(&self) -> WavContents {
        WavContents { codec: self.codec, declared_len: self.declared_len, samples: self.samples@ }
    }
}

/// What `hound` decodes from the bytes of a WAV stream, or `None` where it
/// refuses them.
pub uninterp spec fn hound_decoded(bytes: Seq<u8>) -> Option<WavContents>;

/// Calls `hound::WavReader::new` on the bytes, then `spec`, `len` and
/// `samples::<i16>` on the reader.
///
/// Trusted: the outcome depends on the bytes alone, and a refusal comes
/// back as the words of the decoder's error.
#[verifier::external_body]
fn read_wav(bytes: &[u8]) -> (r: Result<DecodedWav, String>)
    ensures
        match hound_decoded(bytes@) {
            Some(contents) => r matches Ok(decoded) && decoded@ == contents,
            None => r is Err,
        },
{
    let cursor = std::io::Cursor::new(bytes);
    let mut reader = hound::WavReader::new(cursor).map_err(|e| e.to_string())?;
    let spec = reader.spec();
    let declared_len = reader.len();
    let samples = reader.samples::<i16>().map(|s| s.ok()).collect();
    let codec = CodecMetadata {
        sample_rate: spec.sample_rate,
        channels: spec.channels,
        bits_per_sample: spec.bits_per_sample,
    };
    Ok(DecodedWav { codec, declared_len, samples })
}

/// The samples that were read, in order, without those that failed.
pub open spec fn read_samples(samples: Seq<Option<i16>>) -> Seq<i16>
    decreases samples.len(),
{
    if samples.len() == 0 {
        Seq::empty()
    } else {
        match samples.last() {
            Some(sample) => read_samples(samples.drop_last()).push(sample),
            None => read_samples(samples.drop_last()),
        }
    }
}

/// Keeps the samples that were read.
pub fn collect_samples(samples: &Vec<Option<i16>>) -> (kept: Vec<i16>)
    ensures
        kept@ == read_samples(samples@),
{
    let mut kept: Vec<i16> = Vec::new();
    let mut i: usize = 0;
    assert(samples@.subrange(0, 0) =~= Seq::<Option<i16>>::empty());
    while i < samples.len()
        invariant
            i <= samples.len(),
            kept@ == read_samples(samples@.subrange(0, i as int)),
        decreases samples.len() - i,
    {
        proof {
            let next = samples@.subrange(0, i + 1);
            assert(next.drop_last() =~= samples@.subrange(0, i as int));
            assert(next.last() == samples@[i as int]);
        }
        if let Some(sample) = samples[i] {
            kept.push(sample);
        }
        i += 1;
    }
    assert(samples@.subrange(0, i as int) =~= samples@);
    kept
}

/// A decoded WAV stream: its 16-bit samples, the number of samples that its
/// header declared, and its codec parameters.
pub struct WavSplitter {
    samples: Vec<i16>,
    declared_len: u32,
    codec: CodecMetadata,
}

impl WavSplitter {
    #[verifier::type_invariant]
    spec fn usable_rate(self) -> bool {
        self.codec.spec_bytes_per_ms() > 0
    }

    pub closed spec fn spec_samples(&self) -> Seq<i16> {
        self.samples@
    }

    pub closed spec fn spec_declared_len(&self) -> u32 {
        self.declared_len
    }

    pub closed spec fn spec_codec(&self) -> CodecMetadata {
        self.codec
    }

    /// Takes over what was decoded. A codec with less than one sample per
    /// millisecond has no timestamps and is left out.
    pub fn from_samples(samples: Vec<i16>, declared_len: u32, codec: CodecMetadata) -> (splitter:
        Self)
        requires
            codec.spec_bytes_per_ms() > 0,
        ensures
            splitter.spec_samples() == samples@,
            splitter.spec_declared_len() == declared_len,
            splitter.spec_codec() == codec,
            codec.spec_bytes_per_ms() > 0,
    {
        Self { samples, declared_len, codec }
    }

    /// Takes over what the decoder made of a stream, with the samples that
    /// it could read. A codec with less than one sample per millisecond is
    /// reported as missing.
    pub fn from_decoded(decoded: DecodedWav) -> (r: Result<Self, Error>)
        ensures
            decoded.codec.spec_bytes_per_ms() == 0 ==> (r matches Err(
                Error::MissingBuilderField(f),
            ) && f@ == "codec"@),
            decoded.codec.spec_bytes_per_ms() > 0 ==> (r matches Ok(splitter)
                && splitter.spec_samples() == read_samples(decoded.samples@)
                && splitter.spec_declared_len() == decoded.declared_len && splitter.spec_codec()
                == decoded.codec),
    {
        if decoded.codec.bytes_per_ms() == 0 {
            return Err(Error::missing_builder_field("codec"));
        }
        let samples = collect_samples(&decoded.samples);
        Ok(Self { samples, declared_len: decoded.declared_len, codec: decoded.codec })
    }

    /// Decodes a WAV stream that is held in memory.
    pub fn from_bytes(bytes: &[u8]) -> (r: Result<Self, Error>)
        ensures
            match hound_decoded(bytes@) {
                None => r matches Err(Error::Hound(_)),
                Some(contents) => if contents.codec.spec_bytes_per_ms() == 0 {
                    r matches Err(Error::MissingBuilderField(f)) && f@ == "codec"@
                } else {
                    r matches Ok(splitter) && splitter.spec_samples() == read_samples(
                        contents.samples,
                    ) && splitter.spec_declared_len() == contents.declared_len
                        && splitter.spec_codec() == contents.codec
                },
            },
    {
        match read_wav(bytes) {
            Err(e) => Err(Error::Hound(e)),
            Ok(decoded) => Self::from_decoded(decoded),
        }
    }

    pub fn codec(&self) -> (codec: CodecMetadata)
        ensures
            codec == self.spec_codec(),
            codec.spec_bytes_per_ms() > 0,
    {
        proof {
            use_type_invariant(self);
        }
        self.codec
    }

    /// Goes back to the start of the stream. A split reads the decoded
    /// samples without using them up, so there is nothing to undo.
    pub fn reset(&mut self) -> (r: Result<(), Error>)
        ensures
            r is Ok,
            *final(self) == *old(self),
    {
        Ok(())
    }
}

impl AudioSplitter for WavSplitter {
    type ByteSize = i16;

    type CodecParams = CodecMetadata;

    /// Fails when the stream holds another number of samples than it
    /// declared, and splits it otherwise.
    fn split_audio(&mut self, opts: SplitOpts) -> (r: Result<
        SplitResult<i16, CodecMetadata>,
        Error,
    >)
        ensures
            final(self).spec_samples() == old(self).spec_samples(),
            final(self).spec_declared_len() == old(self).spec_declared_len(),
            final(self).spec_codec() == old(self).spec_codec(),
            old(self).spec_samples().len() != old(self).spec_declared_len() ==> (r matches Err(
                Error::InconsistentByteLength(a, b),
            ) && a == old(self).spec_samples().len() && b == old(self).spec_declared_len()),
            old(self).spec_samples().len() == old(self).spec_declared_len() ==> (r matches Ok(
                result,
            ) && result.spec_codec() == old(self).spec_codec() && chunk_views(
                result.spec_chunks(),
            ) == spec_split(
                old(self).spec_samples(),
                old(self).spec_codec().spec_bytes_per_ms(),
                opts.spec_frame_size(),
                opts.spec_silence_threshold(),
            )),
    {
        proof {
            use_type_invariant(&*self);
        }
        match check_byte_length(self.samples.len(), self.declared_len) {
            Err(e) => {
                return Err(e);
            },
            Ok(_) => {},
        }
        let bytes_per_ms: usize = self.codec.bytes_per_ms();
        let chunks = split_samples(self.samples.as_slice(), bytes_per_ms, &opts);
        Ok(SplitResult::new(chunks, self.codec))
    }
}

} // verus!
