use vstd::prelude::*;

use crate::protocol::{CHANNELS, FRAMES_PER_PACKET, SAMPLE_RATE};

verus! {

/// Microseconds covered by `frames` frames at the stream sample rate,
/// rounded down.
pub open spec fn frames_to_micros(frames: int) -> int {
    frames * 1_000_000 / (SAMPLE_RATE as int)
}

/// Frames covered by `micros` microseconds at the stream sample rate,
/// rounded down.
pub open spec fn micros_to_frames(micros: int) -> int {
    micros * (SAMPLE_RATE as int) / 1_000_000
}

/// A point in time, counted in frames at the stream sample rate.
#[derive(Debug, Clone, Copy, PartialEq, Eq, Hash)]
pub struct Timestamp(pub u64);

/// A span of time, counted in frames at the stream sample rate.
#[derive(Debug, Clone, Copy, PartialEq, Eq, Hash)]
pub struct SampleDuration(pub u64);

/// A signed difference between two timestamps, in frames.
#[derive(Debug, Clone, Copy, PartialEq, Eq, Hash)]
pub struct TimestampDelta(pub i64);

impl Timestamp {
    /// The current real time as a timestamp, or `None` when the clock cannot
    /// be read or lies before the Unix epoch. Whatever the clock reads, the
    /// result is a whole number of frames converted from microseconds.
    pub fn now() -> (r: Option<Timestamp>)
        ensures
            r matches Some(t) ==> exists|m: u64| t.0 == micros_to_frames(m as int),
    {
        match crate::clock::clock_micros(crate::clock::ClockKind::Realtime) {
            Some(micros) => {
                if micros >= 0 {
                    let m = crate::protocol::TimestampMicros(micros as u64);
                    let t = Timestamp::from_micros_lossy(m);
                    assert(t.0 == micros_to_frames(m.0 as int));
                    Some(t)
                } else {
                    None
                }
            },
            None => None,
        }
    }

    /// The timestamp `micros` microseconds converted to frames, rounding
    /// down towards the earlier frame.
    pub fn from_micros_lossy(micros: crate::protocol::TimestampMicros) -> (r: Timestamp)
        ensures
            r.0 == micros_to_frames(micros.0 as int),
    {
        let m = micros.0 as u128;
        let ts = (m * 48000) / 1_000_000;
        Timestamp(ts as u64)
    }

    /// This timestamp in microseconds, rounding down. The result must fit in
    /// a `u64`.
    pub fn to_micros_lossy(&self) -> (r: crate::protocol::TimestampMicros)
        requires
            frames_to_micros(self.0 as int) <= u64::MAX,
        ensures
            r.0 == frames_to_micros(self.0 as int),
    {
        let ts = self.0 as u128;
        let micros = (ts * 1_000_000) / 48000;
        crate::protocol::TimestampMicros(micros as u64)
    }

    /// The timestamp `duration` later than this one.
    pub fn add(&self, duration: SampleDuration) -> (r: Timestamp)
        requires
            self.0 + duration.0 <= u64::MAX,
        ensures
            r.0 == self.0 + duration.0,
    {
        Timestamp(self.0 + duration.0)
    }

    /// The timestamp `duration` earlier than this one.
    pub fn sub(&self, duration: SampleDuration) -> (r: Timestamp)
        requires
            duration.0 <= self.0,
        ensures
            r.0 == self.0 - duration.0,
    {
        Timestamp(self.0 - duration.0)
    }

    /// The timestamp `duration` earlier than this one, or zero if that would
    /// lie before zero.
    pub fn saturating_sub(&self, duration: SampleDuration) -> (r: Timestamp)
        ensures
            r.0 == if duration.0 <= self.0 { self.0 - duration.0 } else { 0 },
    {
        if duration.0 <= self.0 {
            Timestamp(self.0 - duration.0)
        } else {
            Timestamp(0)
        }
    }

    /// How long after `other` this timestamp lies; `other` must not be later.
    pub fn duration_since(&self, other: Timestamp) -> (r: SampleDuration)
        requires
            other.0 <= self.0,
        ensures
            r.0 == self.0 - other.0,
    {
        SampleDuration(self.0 - other.0)
    }

    /// The signed distance from `other` to this timestamp: positive when
    /// this timestamp is the later one. Both must lie within `i64::MAX`
    /// frames of each other.
    pub fn delta(&self, other: Timestamp) -> (r: TimestampDelta)
        requires
            -(i64::MAX as int) <= self.0 - other.0 <= i64::MAX,
        ensures
            r.0 == self.0 - other.0,
    {
        if self.0 >= other.0 {
            TimestampDelta((self.0 - other.0) as i64)
        } else {
            TimestampDelta(-((other.0 - self.0) as i64))
        }
    }

    /// This timestamp moved by `delta` frames, or `None` when the result
    /// would fall outside the range of a timestamp.
    pub fn adjust(&self, delta: TimestampDelta) -> (r: Option<Timestamp>)
        ensures
            r == (if 0 <= self.0 + delta.0 <= u64::MAX {
                Some(Timestamp((self.0 + delta.0) as u64))
            } else {
                None::<Timestamp>
            }),
    {
        if delta.0 >= 0 {
            let forward = delta.0 as u64;
            if forward <= u64::MAX - self.0 {
                Some(Timestamp(self.0 + forward))
            } else {
                None
            }
        } else {
            let back = (-(delta.0 as i128)) as u64;
            if back <= self.0 {
                Some(Timestamp(self.0 - back))
            } else {
                None
            }
        }
    }
}

impl TimestampDelta {
    /// The zero delta.
    pub fn zero() -> (r: TimestampDelta)
        ensures
            r.0 == 0,
    {
        TimestampDelta(0)
    }

    /// The magnitude of this delta as a duration.
    pub fn abs(&self) -> (r: SampleDuration)
        ensures
            r.0 == if self.0 < 0 { -self.0 } else { self.0 as int },
    {
        if self.0 < 0 {
            SampleDuration((-(self.0 as i128)) as u64)
        } else {
            SampleDuration(self.0 as u64)
        }
    }

    /// This delta counted in frames.
    pub fn as_frames(&self) -> (r: i64)
        ensures
            r == self.0,
    {
        self.0
    }

    /// This delta in microseconds, rounded towards zero. The result must fit
    /// in an `i64`.
    pub fn to_micros_lossy(&self) -> (r: i64)
        requires
            frames_to_micros(if self.0 < 0 { -self.0 } else { self.0 as int }) <= i64::MAX,
        ensures
            r == (if self.0 < 0 {
                -frames_to_micros(-self.0)
            } else {
                frames_to_micros(self.0 as int)
            }),
    {
        let f = self.0 as i128;
        if f < 0 {
            (-((-f) * 1_000_000 / 48000)) as i64
        } else {
            (f * 1_000_000 / 48000) as i64
        }
    }

    /// A delta of `micros` microseconds converted to frames, rounded towards
    /// zero.
    pub fn from_micros_lossy(micros: i64) -> (r: TimestampDelta)
        ensures
            r.0 == (if micros < 0 {
                -micros_to_frames(-micros)
            } else {
                micros_to_frames(micros as int)
            }),
    {
        let m = micros as i128;
        if m < 0 {
            TimestampDelta((-((-m) * 48000 / 1_000_000)) as i64)
        } else {
            TimestampDelta((m * 48000 / 1_000_000) as i64)
        }
    }
}

impl SampleDuration {
    /// The duration of one full audio packet.
    pub fn one_packet() -> (r: SampleDuration)
        ensures
            r.0 == FRAMES_PER_PACKET,
    {
        SampleDuration(160)
    }

    /// The empty duration.
    pub fn zero() -> (r: Self)
        ensures
            r.0 == 0,
    {
        SampleDuration(0)
    }

    /// The duration of `samples` frames.
    pub fn from_sample_count(samples: u64) -> (r: Self)
        ensures
            r.0 == samples,
    {
        SampleDuration(samples)
    }

    /// A duration of `duration_micros` microseconds (as a standard duration
    /// reports them) converted to frames, rounding down. The result must fit
    /// in a `u64`.
    pub fn from_std_duration_lossy(duration_micros: u128) -> (r: SampleDuration)
        requires
            micros_to_frames(duration_micros as int) <= u64::MAX,
        ensures
            r.0 == micros_to_frames(duration_micros as int),
    {
        assert(duration_micros * 48000 <= u128::MAX) by {
            assert(duration_micros * 48000 / 1_000_000 <= u64::MAX);
        }
        let d = (duration_micros * 48000) / 1_000_000;
        SampleDuration(d as u64)
    }

    /// This duration in whole microseconds, rounding down. The result must
    /// fit in a `u64`.
    pub fn to_std_duration_lossy(&self) -> (r: u64)
        requires
            frames_to_micros(self.0 as int) <= u64::MAX,
        ensures
            r == frames_to_micros(self.0 as int),
    {
        let micros = (self.0 as u128 * 1_000_000) / 48000;
        micros as u64
    }

    /// This duration in whole microseconds, rounding down.
    pub fn to_micros_lossy(&self) -> (r: u64)
        requires
            frames_to_micros(self.0 as int) <= u64::MAX,
        ensures
            r == frames_to_micros(self.0 as int),
    {
        self.to_std_duration_lossy()
    }

    /// This duration repeated `times` times.
    pub fn mul(&self, times: u64) -> (r: Self)
        requires
            self.0 * times <= u64::MAX,
        ensures
            r.0 == self.0 * times,
    {
        SampleDuration(self.0 * times)
    }

    /// The sum of this duration and `other`.
    pub fn add(&self, other: SampleDuration) -> (r: Self)
        requires
            self.0 + other.0 <= u64::MAX,
        ensures
            r.0 == self.0 + other.0,
    {
        SampleDuration(self.0 + other.0)
    }

    /// This duration less `other`, which must not be longer.
    pub fn sub(&self, other: SampleDuration) -> (r: Self)
        requires
            other.0 <= self.0,
        ensures
            r.0 == self.0 - other.0,
    {
        SampleDuration(self.0 - other.0)
    }

    /// The number of interleaved samples this duration covers.
    pub fn as_buffer_offset(&self) -> (r: usize)
        requires
            self.0 * (CHANNELS as int) <= usize::MAX,
        ensures
            r == self.0 * (CHANNELS as int),
    {
        (self.0 * 2) as usize
    }

    /// The duration covered by `offset` interleaved samples, which must be a
    /// whole number of frames.
    pub fn from_buffer_offset(offset: usize) -> (r: Self)
        requires
            offset as int % (CHANNELS as int) == 0,
        ensures
            r.0 * (CHANNELS as int) == offset,
    {
        SampleDuration((offset / 2) as u64)
    }
}

/// The quotient of `x` by `d` is `q` when `x` lies in `[q * d, q * d + d)`.
proof fn lemma_div_unique(x: int, d: int, q: int)
    by (nonlinear_arith)
    requires
        d > 0,
        q * d <= x < q * d + d,
    ensures
        x / d == q,
{
}

/// Converting a timestamp to microseconds and back loses at most one
/// frame: the result is the timestamp itself or the frame before it.
pub proof fn lemma_micros_round_trip(t: Timestamp)
    ensures
        t.0 - 1 <= micros_to_frames(frames_to_micros(t.0 as int)) <= t.0,
{
    let m = frames_to_micros(t.0 as int);
    let x = m * 48000;
    assert(t.0 * 1_000_000 - 48000 < x <= t.0 * 1_000_000);
    if x == t.0 * 1_000_000 {
        lemma_div_unique(x, 1_000_000, t.0 as int);
    } else {
        lemma_div_unique(x, 1_000_000, t.0 - 1);
    }
}

/// Converting microseconds to a timestamp and back loses less than two
/// frames' worth: the result is at most the input and within 22
/// microseconds of it.
pub proof fn lemma_frames_round_trip(micros: u64)
    ensures
        frames_to_micros(micros_to_frames(micros as int)) <= micros,
        micros - frames_to_micros(micros_to_frames(micros as int)) < 22,
{
    let f = micros_to_frames(micros as int);
    let back = frames_to_micros(f);
    assert(f * 1_000_000 <= micros * 48000);
    assert(micros * 48000 < f * 1_000_000 + 1_000_000);
    assert(back * 48000 <= f * 1_000_000);
    assert(f * 1_000_000 < back * 48000 + 48000);
    assert(micros * 48000 < back * 48000 + 1_048_000);
    assert(back * 48000 <= micros * 48000);
    assert(back <= micros) by (nonlinear_arith)
        requires
            back * 48000 <= micros * 48000,
    ;
    assert(micros - back < 22) by (nonlinear_arith)
        requires
            micros * 48000 < back * 48000 + 1_048_000,
    ;
}

/// Adding a duration and then taking the duration since the starting point
/// gives the duration back; subtracting it again gives the start back.
pub proof fn lemma_add_duration_since(t: Timestamp, d: SampleDuration)
    requires
        t.0 + d.0 <= u64::MAX,
    ensures
        (t.0 + d.0) - t.0 == d.0,
        Timestamp((t.0 + d.0) as u64).0 - d.0 == t.0,
{
}

/// A duration converted to an interleaved sample offset and back is
/// unchanged.
pub proof fn lemma_buffer_offset_round_trip(d: SampleDuration)
    requires
        d.0 * (CHANNELS as int) <= usize::MAX,
    ensures
        (d.0 * (CHANNELS as int)) % (CHANNELS as int) == 0,
        (d.0 * (CHANNELS as int)) / (CHANNELS as int) == d.0,
{
}

} // verus!
