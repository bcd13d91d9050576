//! Time conversion, energy analysis and the search for a quiet cut point.
use vstd::prelude::*;

verus! {

/// The millisecond in which the sample at `offset` starts:
/// `floor(offset / bytes_per_ms)`.
pub open spec fn spec_timestamp(offset: nat, bytes_per_ms: nat) -> nat
    recommends
        bytes_per_ms > 0,
{
    offset / bytes_per_ms
}

/// Converts a sample offset into a millisecond timestamp.
pub fn bytes_to_timestamp(offset: usize, bytes_per_ms: usize) -> (timestamp: usize)
    requires
        bytes_per_ms > 0,
    ensures
        timestamp as nat == spec_timestamp(offset as nat, bytes_per_ms as nat),
{
    offset / bytes_per_ms
}

/// A PCM sample whose loudness can be measured.
pub trait Sample: Copy {
    /// The signed amplitude of the sample.
    spec fn spec_amplitude(&self) -> i16;

    fn amplitude(&self) -> (a: i16)
        ensures
            a == self.spec_amplitude(),
    ;
}

impl Sample for i16 {
    open spec fn spec_amplitude(&self) -> i16 {
        *self
    }

    fn amplitude(&self) -> (a: i16) {
        *self
    }
}

impl Sample for u8 {
    open spec fn spec_amplitude(&self) -> i16 {
        *self as i16
    }

    fn amplitude(&self) -> (a: i16) {
        *self as i16
    }
}

/// The energy of a window: the sum of its squared amplitudes.
pub open spec fn energy<T: Sample>(window: Seq<T>) -> nat
    decreases window.len(),
{
    if window.len() == 0 {
        0
    } else {
        let a = window.last().spec_amplitude() as int;
        energy(window.drop_last()) + (a * a) as nat
    }
}

/// A window is quiet when it is not empty and the mean of its squared
/// amplitudes does not exceed `ceiling`.
pub open spec fn is_quiet<T: Sample>(window: Seq<T>, ceiling: u64) -> bool {
    window.len() > 0 && energy(window) <= ceiling * window.len()
}

/// The number of sub-frames of `frame_size` samples that a window of `len`
/// samples is cut into, the last one possibly shorter.
pub open spec fn frame_count(len: nat, frame_size: nat) -> nat
    recommends
        frame_size > 0,
{
    len / frame_size + if len % frame_size == 0 {
        0nat
    } else {
        1nat
    }
}

/// The `i`-th sub-frame of a window.
pub open spec fn frame_at<T>(window: Seq<T>, frame_size: nat, i: nat) -> Seq<T> {
    let start = i * frame_size;
    let end = if start + frame_size <= window.len() {
        start + frame_size
    } else {
        window.len()
    };
    window.subrange(start as int, end as int)
}

/// The last quiet sub-frame among the first `upto` sub-frames, if there is one.
pub open spec fn latest_quiet_frame<T: Sample>(
    window: Seq<T>,
    frame_size: nat,
    ceiling: u64,
    upto: nat,
) -> Option<nat>
    decreases upto,
{
    if upto == 0 {
        None
    } else if is_quiet(frame_at(window, frame_size, (upto - 1) as nat), ceiling) {
        Some((upto - 1) as nat)
    } else {
        latest_quiet_frame(window, frame_size, ceiling, (upto - 1) as nat)
    }
}

/// Where to cut a window: at the start of its last quiet sub-frame, or at
/// its end when no sub-frame is quiet.
pub open spec fn silent_position<T: Sample>(window: Seq<T>, frame_size: nat, ceiling: u64) -> nat {
    match latest_quiet_frame(window, frame_size, ceiling, frame_count(window.len(), frame_size)) {
        Some(i) => i * frame_size,
        None => window.len(),
    }
}

/// `position` is the cut point that prefers the latest silence: the start
/// of a quiet sub-frame after which no sub-frame is quiet, or, where no
/// sub-frame of the window is quiet, the length of the window.
pub open spec fn latest_silence_at<T: Sample>(
    window: Seq<T>,
    frame_size: nat,
    ceiling: u64,
    position: nat,
) -> bool {
    let count = frame_count(window.len(), frame_size);
    ||| (position == window.len() && forall|k: nat|
        k < count ==> !is_quiet(#[trigger] frame_at(window, frame_size, k), ceiling))
    ||| (exists|j: nat|
        j < count && position == j * frame_size && is_quiet(
            #[trigger] frame_at(window, frame_size, j),
            ceiling,
        ) && forall|k: nat|
            j < k < count ==> !is_quiet(#[trigger] frame_at(window, frame_size, k), ceiling))
}

/// The start of every sub-frame lies inside the window.
pub proof fn lemma_frame_starts_inside(len: nat, frame_size: nat, i: nat)
    requires
        frame_size > 0,
        i < frame_count(len, frame_size),
    ensures
        i * frame_size < len,
{
    let q = len / frame_size;
    let r = len % frame_size;
    vstd::arithmetic::div_mod::lemma_fundamental_div_mod(len as int, frame_size as int);
    if i < q {
        assert(i * frame_size + frame_size <= q * frame_size) by (nonlinear_arith)
            requires
                i + 1 <= q,
        ;
        assert(q * frame_size == frame_size * q) by (nonlinear_arith);
    } else {
        assert(i == q);
        assert(q * frame_size == frame_size * q) by (nonlinear_arith);
    }
}

/// The cut point is the start of the latest quiet sub-frame: no later
/// sub-frame is quiet. Without a quiet sub-frame it is the window's length.
pub proof fn lemma_latest_quiet_frame<T: Sample>(
    window: Seq<T>,
    frame_size: nat,
    ceiling: u64,
    upto: nat,
)
    ensures
        match latest_quiet_frame(window, frame_size, ceiling, upto) {
            Some(j) => j < upto && is_quiet(frame_at(window, frame_size, j), ceiling)
                && forall|k: nat|
                j < k < upto ==> !is_quiet(#[trigger] frame_at(window, frame_size, k), ceiling),
            None => forall|k: nat|
                k < upto ==> !is_quiet(#[trigger] frame_at(window, frame_size, k), ceiling),
        },
    decreases upto,
{
    if upto > 0 {
        lemma_latest_quiet_frame(window, frame_size, ceiling, (upto - 1) as nat);
    }
}

/// The cut point never lies beyond the window.
pub proof fn lemma_silent_position_bound<T: Sample>(window: Seq<T>, frame_size: nat, ceiling: u64)
    requires
        frame_size > 0,
    ensures
        silent_position(window, frame_size, ceiling) <= window.len(),
{
    let count = frame_count(window.len(), frame_size);
    lemma_latest_quiet_frame(window, frame_size, ceiling, count);
    if let Some(j) = latest_quiet_frame(window, frame_size, ceiling, count) {
        lemma_frame_starts_inside(window.len(), frame_size, j);
    }
}

/// The cut point is the start of the latest quiet sub-frame, never of an
/// earlier one, and the length of the window where no sub-frame is quiet.
pub proof fn lemma_silent_position_is_latest<T: Sample>(
    window: Seq<T>,
    frame_size: nat,
    ceiling: u64,
)
    requires
        frame_size > 0,
    ensures
        latest_silence_at(
            window,
            frame_size,
            ceiling,
            silent_position(window, frame_size, ceiling),
        ),
{
    let count = frame_count(window.len(), frame_size);
    lemma_latest_quiet_frame(window, frame_size, ceiling, count);
    let position = silent_position(window, frame_size, ceiling);
    if let Some(j) = latest_quiet_frame(window, frame_size, ceiling, count) {
        assert(j < count && position == j * frame_size && is_quiet(
            frame_at(window, frame_size, j),
            ceiling,
        ));
    }
}

/// Sums the squared amplitudes of `samples[start..end]`.
pub fn frame_energy<T: Sample>(samples: &[T], start: usize, end: usize) -> (sum: u128)
    requires
        start <= end <= samples.len(),
    ensures
        sum == energy(samples@.subrange(start as int, end as int)),
{
    let mut sum: u128 = 0;
    let mut i: usize = start;
    proof {
        assert(samples@.subrange(start as int, start as int) =~= Seq::<T>::empty());
    }
    while i < end
        invariant
            start <= i <= end <= samples.len(),
            sum == energy(samples@.subrange(start as int, i as int)),
            sum <= (i - start) * 0x4000_0000,
        decreases end - i,
    {
        let a: i16 = samples[i].amplitude();
        let wide: i64 = a as i64;
        assert(0 <= wide * wide <= 0x4000_0000) by (nonlinear_arith)
            requires
                -0x8000 <= wide <= 0x7fff,
        ;
        let square: i64 = wide * wide;
        proof {
            let next = samples@.subrange(start as int, i + 1);
            assert(next.drop_last() =~= samples@.subrange(start as int, i as int));
            assert(next.last() == samples@[i as int]);
        }
        sum = sum + square as u128;
        i += 1;
    }
    sum
}

/// Tells whether `samples[start..end]` is quiet under `ceiling`.
pub fn frame_is_quiet<T: Sample>(samples: &[T], start: usize, end: usize, ceiling: u64) -> (quiet:
    bool)
    requires
        start <= end <= samples.len(),
    ensures
        quiet == is_quiet(samples@.subrange(start as int, end as int), ceiling),
{
    if start == end {
        return false;
    }
    let sum = frame_energy(samples, start, end);
    let len: usize = end - start;
    assert(ceiling as u128 * len as u128 <= 0xffff_ffff_ffff_ffff * 0xffff_ffff_ffff_ffff)
        by (nonlinear_arith)
        requires
            ceiling <= 0xffff_ffff_ffff_ffff,
            len <= 0xffff_ffff_ffff_ffff,
    ;
    sum <= ceiling as u128 * len as u128
}

/// Searches a window of samples, from its end towards its start, for a
/// quiet sub-frame of `frame_size` samples, and returns the offset at which
/// the first one found starts. Where no sub-frame is quiet the result is the
/// window's length.
pub fn find_silent_position<T: Sample>(bytes: &[T], frame_size: usize, ceiling: u64) -> (position:
    Option<usize>)
    requires
        frame_size > 0,
    ensures
        position == Some(silent_position(bytes@, frame_size as nat, ceiling) as usize),
        silent_position(bytes@, frame_size as nat, ceiling) <= bytes.len(),
        latest_silence_at(
            bytes@,
            frame_size as nat,
            ceiling,
            silent_position(bytes@, frame_size as nat, ceiling),
        ),
{
    proof {
        lemma_silent_position_is_latest(bytes@, frame_size as nat, ceiling);
    }
    let len: usize = bytes.len();
    let whole: usize = len / frame_size;
    proof {
        vstd::arithmetic::div_mod::lemma_fundamental_div_mod(len as int, frame_size as int);
        assert(whole <= frame_size * whole) by (nonlinear_arith)
            requires
                frame_size >= 1,
        ;
    }
    let count: usize = if len % frame_size == 0 {
        whole
    } else {
        whole + 1
    };
    let mut i: usize = count;
    while i > 0
        invariant
            frame_size > 0,
            len == bytes.len(),
            count == frame_count(len as nat, frame_size as nat),
            i <= count,
            latest_quiet_frame(bytes@, frame_size as nat, ceiling, count as nat)
                == latest_quiet_frame(bytes@, frame_size as nat, ceiling, i as nat),
            latest_silence_at(
                bytes@,
                frame_size as nat,
                ceiling,
                silent_position(bytes@, frame_size as nat, ceiling),
            ),
        decreases i,
    {
        let frame: usize = i - 1;
        proof {
            lemma_frame_starts_inside(len as nat, frame_size as nat, frame as nat);
        }
        let start: usize = frame * frame_size;
        let end: usize = if len - start <= frame_size {
            len
        } else {
            start + frame_size
        };
        assert(bytes@.subrange(start as int, end as int) == frame_at(
            bytes@,
            frame_size as nat,
            frame as nat,
        ));
        if frame_is_quiet(bytes, start, end, ceiling) {
            return Some(start);
        }
        i = frame;
    }
    Some(len)
}

} // verus!
