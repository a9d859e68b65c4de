use vstd::prelude::*;

verus! {

/// Times are compared through keys: a time's key is made from the bit pattern
/// of its IEEE-754 single-precision value so that unsigned comparison of keys
/// orders times as numbers. The key of `0.0` is this one.
pub const ZERO_TIME_KEY: u32 = 0x8000_0000;

/// The key of the time with single-precision bit pattern `bits`: non-negative
/// values move above all negative ones, and negative values are mirrored so
/// that a larger magnitude gives a smaller key.
pub open spec fn key_of(bits: u32) -> u32 {
    if bits < 0x8000_0000 {
        (bits + 0x8000_0000) as u32
    } else {
        (0xFFFF_FFFFu32 - bits) as u32
    }
}

/// Computes the ordering key of a time from its bit pattern.
pub fn time_key(bits: u32) -> (r: u32)
    ensures
        r == key_of(bits),
{
    if bits < 0x8000_0000 {
        bits + 0x8000_0000
    } else {
        0xFFFF_FFFFu32 - bits
    }
}

/// Distinct bit patterns give distinct keys.
pub proof fn lemma_key_injective(a: u32, b: u32)
    requires
        a != b,
    ensures
        key_of(a) != key_of(b),
{
}

/// Among non-negative times, and among negative ones, keys keep or reverse
/// the order of the bit patterns as a number's magnitude does, and every
/// negative time lies below every non-negative one.
pub proof fn lemma_key_order(a: u32, b: u32)
    requires
        a < b,
    ensures
        b < 0x8000_0000 ==> key_of(a) < key_of(b),
        a >= 0x8000_0000 ==> key_of(a) > key_of(b),
        a < 0x8000_0000 <= b ==> key_of(b) < key_of(a),
{
}

pub open spec fn sorted(s: Seq<u32>) -> bool {
    forall|i: int, j: int| 0 <= i <= j < s.len() ==> s[i] <= s[j]
}

/// `r` is the point that applies at `at`: the last one at or before `at`, or
/// none where every point lies after `at`.
pub open spec fn is_applicable(times: Seq<u32>, at: u32, r: Option<usize>) -> bool {
    match r {
        Some(i) => {
            &&& i < times.len()
            &&& times[i as int] <= at
            &&& forall|j: int| i < j < times.len() ==> times[j] > at
        },
        None => forall|j: int| 0 <= j < times.len() ==> times[j] > at,
    }
}

/// At most one point applies at a time, so the lookup's result is determined.
pub proof fn lemma_applicable_unique(times: Seq<u32>, at: u32, a: Option<usize>, b: Option<usize>)
    requires
        is_applicable(times, at, a),
        is_applicable(times, at, b),
    ensures
        a == b,
{
    match (a, b) {
        (Some(i), Some(j)) => {
            if i < j {
                assert(times[j as int] > at);
            } else if j < i {
                assert(times[i as int] > at);
            }
        },
        (Some(i), None) => {
            assert(times[i as int] > at);
        },
        (None, Some(j)) => {
            assert(times[j as int] > at);
        },
        (None, None) => {},
    }
}

/// The time of a chosen point; with none chosen, time zero.
pub open spec fn time_of(times: Seq<u32>, r: Option<usize>) -> u32 {
    match r {
        Some(i) => times[i as int],
        None => ZERO_TIME_KEY,
    }
}

/// Finds, by binary search over the sorted keys `times`, the index of the
/// point that applies at `at`.
pub fn applicable_point(times: &Vec<u32>, at: u32) -> (r: Option<usize>)
    requires
        sorted(times@),
    ensures
        is_applicable(times@, at, r),
{
    let mut lo: usize = 0;
    let mut hi: usize = times.len();
    while lo < hi
        invariant
            lo <= hi <= times.len(),
            sorted(times@),
            forall|j: int| 0 <= j < lo ==> times@[j] <= at,
            forall|j: int| hi <= j < times.len() ==> times@[j] > at,
        decreases hi - lo,
    {
        let mid: usize = lo + (hi - lo) / 2;
        if times[mid] <= at {
            lo = mid + 1;
        } else {
            hi = mid;
        }
    }
    if lo == 0 {
        None
    } else {
        Some(lo - 1)
    }
}

/// The control points that govern a slider starting at a given time.
#[derive(Clone, Copy, Debug, PartialEq, Eq, Structural)]
pub struct ControlPoints {
    /// Index of the timing point (beat length) in force, if any.
    pub timing: Option<usize>,
    /// Index of the difficulty point (speed multiplier) in force, if any.
    pub difficulty: Option<usize>,
    /// Whether the slider's duration is scaled by the difficulty point's
    /// speed multiplier: not when the timing point in force is newer than
    /// the difficulty point in force.
    pub scale_duration: bool,
}

/// Looks up the timing and difficulty points in force at `at`.
pub fn control_points_at(timing_times: &Vec<u32>, difficulty_times: &Vec<u32>, at: u32) -> (r:
    ControlPoints)
    requires
        sorted(timing_times@),
        sorted(difficulty_times@),
    ensures
        is_applicable(timing_times@, at, r.timing),
        is_applicable(difficulty_times@, at, r.difficulty),
        r.scale_duration == (time_of(timing_times@, r.timing) <= time_of(
            difficulty_times@,
            r.difficulty,
        )),
{
    let timing = applicable_point(timing_times, at);
    let difficulty = applicable_point(difficulty_times, at);
    let timing_time: u32 = match timing {
        Some(i) => timing_times[i],
        None => ZERO_TIME_KEY,
    };
    let difficulty_time: u32 = match difficulty {
        Some(i) => difficulty_times[i],
        None => ZERO_TIME_KEY,
    };
    ControlPoints { timing, difficulty, scale_duration: timing_time <= difficulty_time }
}

} // verus!
