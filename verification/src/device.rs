use vstd::prelude::*;

use crate::protocol::{CHANNELS, FRAMES_PER_PACKET, SAMPLE_RATE};
use crate::receive::{rate_decision, timing_offset, RateAdjust, SampleRate, Timing};
use crate::status::StreamStatus;
use crate::time::{micros_to_frames, SampleDuration, Timestamp, TimestampDelta};

verus! {

/// The transfer period an audio device gets when none is configured.
pub fn default_period() -> (r: SampleDuration)
    ensures
        r.0 == 120,
{
    SampleDuration(120)
}

/// The buffer an audio device gets when none is configured.
pub fn default_buffer() -> (r: SampleDuration)
    ensures
        r.0 == 360,
{
    SampleDuration(360)
}

/// How to open an audio device.
#[derive(Debug, Clone, PartialEq, Eq)]
pub struct DeviceOpt {
    /// The device's name, or the default device when `None`.
    pub device: Option<String>,
    /// Size of one transfer, in frames.
    pub period: SampleDuration,
    /// Size of the device's buffer, in frames.
    pub buffer: SampleDuration,
}

/// The options for the device `device` with the transfer period and buffer
/// given in frames, each taking its default when not given.
pub fn device_opt(device: Option<String>, period: Option<u64>, buffer: Option<u64>) -> (r:
    DeviceOpt)
    ensures
        r.device == device,
        r.period.0 == (match period {
            Some(p) => p,
            None => 120,
        }),
        r.buffer.0 == (match buffer {
            Some(b) => b,
            None => 360,
        }),
{
    DeviceOpt {
        device,
        period: match period {
            Some(p) => SampleDuration::from_sample_count(p),
            None => default_period(),
        },
        buffer: match buffer {
            Some(b) => SampleDuration::from_sample_count(b),
            None => default_buffer(),
        },
    }
}

/// A range of stream configurations an audio device supports.
#[derive(Debug, Clone, Copy, PartialEq, Eq)]
pub struct SupportedConfig {
    /// Whether its samples are 32-bit floats.
    pub float_samples: bool,
    /// Its number of channels.
    pub channels: u16,
    /// The smallest buffer it takes, in frames, when the device says.
    pub min_buffer_size: Option<u32>,
}

/// The stream configuration to open a device with.
#[derive(Debug, Clone, Copy, PartialEq, Eq)]
pub struct StreamSettings {
    pub channels: u16,
    pub sample_rate: u32,
    /// A fixed buffer size, in frames.
    pub buffer_size: u32,
}

/// Whether bark can stream with a configuration: float samples in
/// stereo.
pub open spec fn config_usable(c: SupportedConfig) -> bool {
    c.float_samples && c.channels == CHANNELS
}

/// The buffer size to ask for within a configuration: its smallest, but
/// at least a packet's worth; a packet's worth when the device does not
/// say.
pub open spec fn buffer_size_for(c: SupportedConfig) -> u32 {
    match c.min_buffer_size {
        Some(min) => if min >= FRAMES_PER_PACKET {
            min
        } else {
            FRAMES_PER_PACKET as u32
        },
        None => FRAMES_PER_PACKET as u32,
    }
}

/// The stream configuration to open a device with, from the first of
/// `configs` bark can stream with, or `None` when there is none.
pub fn config_for_device(configs: &[SupportedConfig]) -> (r: Option<StreamSettings>)
    ensures
        r is None <==> forall|i: int| 0 <= i < configs@.len() ==> !config_usable(#[trigger] configs@[i]),
        r matches Some(s) ==> exists|i: int|
            0 <= i < configs@.len() && config_usable(#[trigger] configs@[i]) && (forall|j: int|
                0 <= j < i ==> !config_usable(#[trigger] configs@[j])) && s == (StreamSettings {
                channels: CHANNELS,
                sample_rate: SAMPLE_RATE,
                buffer_size: buffer_size_for(configs@[i]),
            }),
{
    let mut i: usize = 0;
    while i < configs.len()
        invariant
            i <= configs@.len(),
            forall|j: int| 0 <= j < i ==> !config_usable(#[trigger] configs@[j]),
        decreases configs@.len() - i,
    {
        let c = configs[i];
        if c.float_samples && c.channels == CHANNELS {
            let buffer_size = match c.min_buffer_size {
                Some(min) => if min >= FRAMES_PER_PACKET as u32 {
                    min
                } else {
                    FRAMES_PER_PACKET as u32
                },
                None => FRAMES_PER_PACKET as u32,
            };
            let s = StreamSettings { channels: CHANNELS, sample_rate: SAMPLE_RATE, buffer_size };
            assert(config_usable(configs@[i as int]));
            return Some(s);
        }
        i = i + 1;
    }
    None
}

/// What the playback side of a stream reports.
#[derive(Debug, Clone, Copy, PartialEq, Eq)]
pub struct DecodeStats {
    pub status: StreamStatus,
    pub buffered: SampleDuration,
    pub audio_latency: TimestampDelta,
    pub output_latency: SampleDuration,
}

impl Default for DecodeStats {
    fn default() -> (r: DecodeStats)
        ensures
            r == (DecodeStats {
                status: StreamStatus::Seek,
                buffered: SampleDuration(0),
                audio_latency: TimestampDelta(0),
                output_latency: SampleDuration(0),
            }),
    {
        DecodeStats {
            status: StreamStatus::Seek,
            buffered: SampleDuration::zero(),
            audio_latency: TimestampDelta::zero(),
            output_latency: SampleDuration::zero(),
        }
    }
}

impl DecodeStats {
    /// Takes in one decoded packet's worth of playback: the output is
    /// `delay` behind, so what is written at `now` (real time, in
    /// microseconds) plays at `now + delay`; when the packet came from the
    /// stream due at `stream_pts`, the rate adjustment follows that timing
    /// and the status and audio offset are updated. Returns the timing
    /// when there is one, with the rate the stream is to be resampled at
    /// from here on (see `rate_decision`).
    pub fn observe_playback(
        &mut self,
        rate: &mut RateAdjust,
        now: u64,
        delay: SampleDuration,
        stream_pts: Option<Timestamp>,
    ) -> (r: Option<(Timing, SampleRate)>)
        requires
            micros_to_frames(now as int) + delay.0 <= u64::MAX,
            stream_pts matches Some(p) ==> -(i64::MAX as int) <= micros_to_frames(now as int)
                + delay.0 - p.0 <= i64::MAX,
        ensures
            final(self).output_latency == delay,
            final(self).buffered == old(self).buffered,
            match stream_pts {
                Some(p) => r matches Some((t, _)) && t == (Timing {
                    real: Timestamp((micros_to_frames(now as int) + delay.0) as u64),
                    play: p,
                }),
                None => r is None,
            },
            match r {
                Some((t, rate_out)) => {
                    let decision = rate_decision(old(rate).slew, timing_offset(t));
                    &&& final(rate).slew == decision.0
                    &&& rate_out.0 == match decision.1 {
                        Some(x) => x,
                        None => SAMPLE_RATE as int,
                    }
                    &&& final(self).audio_latency.0 == t.real.0 - t.play.0
                    &&& final(self).status == (if final(rate).slew {
                        StreamStatus::Slew
                    } else {
                        StreamStatus::Sync
                    })
                },
                None => {
                    &&& final(self).audio_latency == old(self).audio_latency
                    &&& final(self).status == old(self).status
                    &&& *final(rate) == *old(rate)
                },
            },
    {
        self.output_latency = delay;
        let pts = Timestamp::from_micros_lossy(crate::protocol::TimestampMicros(now)).add(delay);
        match stream_pts {
            Some(play) => {
                let timing = Timing { real: pts, play };
                let new_rate = rate.sample_rate(timing);
                if rate.slew() {
                    self.status = StreamStatus::Slew;
                } else {
                    self.status = StreamStatus::Sync;
                }
                self.audio_latency = timing.real.delta(timing.play);
                Some((timing, new_rate))
            },
            None => None,
        }
    }
}

} // verus!
