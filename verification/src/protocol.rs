use vstd::prelude::*;

use crate::clock;

verus! {

/// Sample rate of every bark stream, in frames per second.
pub const SAMPLE_RATE: u32 = 48000;

/// Number of interleaved channels in a frame.
pub const CHANNELS: u16 = 2;

/// Number of frames carried by one audio packet.
pub const FRAMES_PER_PACKET: usize = 160;

/// Number of samples (frames times channels) carried by one audio packet.
pub const SAMPLES_PER_PACKET: usize = 320;

/// Marks an audio packet.
pub const MAGIC_AUDIO: u32 = 0x00a79ae2;

/// Marks a time synchronisation packet.
pub const MAGIC_TIME: u32 = 0x01a79ae2;

/// Marks a statistics request.
pub const MAGIC_STATS_REQ: u32 = 0x02a79ae2;

/// Marks a statistics reply.
pub const MAGIC_STATS_REPLY: u32 = 0x03a79ae2;

/// A point in time in microseconds, as carried in packets.
#[derive(Debug, Clone, Copy, PartialEq, Eq, Hash)]
pub struct TimestampMicros(pub u64);

impl TimestampMicros {
    /// The real time in microseconds since the Unix epoch, or `None` when
    /// the clock cannot be read or lies before the epoch.
    pub fn now() -> (r: Option<TimestampMicros>)
        ensures
            r matches Some(t) ==> t.0 <= i64::MAX,
    {
        clock::now()
    }
}

/// Identifies a stream: the real time in microseconds at which its source
/// started. A later session takes over from an earlier one.
#[derive(Debug, Clone, Copy, PartialEq, Eq, Hash)]
pub struct SessionId(pub i64);

impl SessionId {
    /// A new session identifier from the real time clock, or `None` when
    /// the clock cannot be read.
    pub fn generate() -> Option<SessionId> {
        match clock::clock_micros(clock::ClockKind::Realtime) {
            Some(micros) => Some(SessionId(micros)),
            None => None,
        }
    }
}

/// Identifies a receiver in time packets; zero addresses every receiver.
#[derive(Debug, Clone, Copy, PartialEq, Eq, Hash)]
pub struct ReceiverId(pub u64);

impl ReceiverId {
    /// The identifier that addresses every receiver.
    pub fn broadcast() -> (r: Self)
        ensures
            r.0 == 0,
    {
        ReceiverId(0)
    }

    /// Whether this identifier addresses every receiver.
    pub fn is_broadcast(&self) -> (r: bool)
        ensures
            r == (self.0 == 0),
    {
        self.0 == 0
    }

    /// Whether a packet addressed to this identifier is meant for the
    /// receiver `this`: it is when addressed to every receiver or to `this`.
    pub fn matches(&self, this: &ReceiverId) -> (r: bool)
        ensures
            r == (self.0 == 0 || self.0 == this.0),
    {
        self.is_broadcast() || self.0 == this.0
    }

    /// A new random receiver identifier.
    pub fn generate() -> Self {
        ReceiverId(clock::random_u64())
    }
}

/// A time synchronisation packet. The stream sends it with `stream_1` set,
/// a receiver answers with `receive_2` set, and the stream answers that with
/// `stream_3` set. On the wire it is padded to the size of an audio packet.
#[derive(Debug, Clone, Copy, PartialEq, Eq)]
pub struct TimePacket {
    pub magic: u32,
    pub flags: u32,
    pub sid: SessionId,
    pub rid: ReceiverId,
    pub stream_1: TimestampMicros,
    pub receive_2: TimestampMicros,
    pub stream_3: TimestampMicros,
}

/// The step of the time synchronisation exchange a time packet is at.
#[derive(Debug, Clone, Copy, PartialEq, Eq)]
pub enum TimePhase {
    /// The stream's broadcast: only `stream_1` is set.
    Broadcast,
    /// A receiver's reply: `stream_1` and `receive_2` are set.
    ReceiverReply,
    /// The stream's unicast answer: all three timestamps are set.
    StreamReply,
}

/// The phase a time packet is at, from which of its three timestamps are
/// set (non-zero), or `None` for any other combination.
pub open spec fn time_phase(p: TimePacket) -> Option<TimePhase> {
    if p.stream_1.0 != 0 && p.receive_2.0 == 0 && p.stream_3.0 == 0 {
        Some(TimePhase::Broadcast)
    } else if p.stream_1.0 != 0 && p.receive_2.0 != 0 && p.stream_3.0 == 0 {
        Some(TimePhase::ReceiverReply)
    } else if p.stream_1.0 != 0 && p.receive_2.0 != 0 && p.stream_3.0 != 0 {
        Some(TimePhase::StreamReply)
    } else {
        None
    }
}

impl TimePacket {
    /// The phase this packet is at, from which of its three timestamps are
    /// set (non-zero), or `None` for any other combination.
    pub fn phase(&self) -> (r: Option<TimePhase>)
        ensures
            r == time_phase(*self),
    {
        let t1 = self.stream_1.0;
        let t2 = self.receive_2.0;
        let t3 = self.stream_3.0;

        if t1 != 0 && t2 == 0 && t3 == 0 {
            return Some(TimePhase::Broadcast);
        }
        if t1 != 0 && t2 != 0 && t3 == 0 {
            return Some(TimePhase::ReceiverReply);
        }
        if t1 != 0 && t2 != 0 && t3 != 0 {
            return Some(TimePhase::StreamReply);
        }
        None
    }
}

/// A request that every node reply with its statistics.
#[derive(Debug, Clone, Copy, PartialEq, Eq)]
pub struct StatsRequestPacket {
    pub magic: u32,
    pub flags: u32,
}

/// What kind of node sent a statistics reply.
#[derive(Debug, Clone, Copy, PartialEq, Eq)]
pub struct StatsReplyFlags(pub u32);

impl StatsReplyFlags {
    /// The reply comes from a receiver.
    pub fn is_receiver() -> (r: Self)
        ensures
            r.0 == 0x01,
    {
        StatsReplyFlags(0x01)
    }

    /// The reply comes from a stream source.
    pub fn is_stream() -> (r: Self)
        ensures
            r.0 == 0x02,
    {
        StatsReplyFlags(0x02)
    }

    /// Whether every flag set in `other` is set here.
    pub fn contains(&self, other: StatsReplyFlags) -> (r: bool)
        ensures
            r == (self.0 & other.0 == other.0),
    {
        self.0 & other.0 == other.0
    }
}

/// A node's reply to a statistics request. The statistics that follow the
/// header are carried as the bytes of `payload`.
#[derive(Debug, Clone, PartialEq, Eq)]
pub struct StatsReplyPacket {
    pub magic: u32,
    pub flags: StatsReplyFlags,
    pub sid: SessionId,
    pub payload: Vec<u8>,
}

/// The audio of one packet: `SAMPLES_PER_PACKET` interleaved 32-bit float
/// samples, each held as its IEEE 754 bit pattern.
#[derive(Debug, Clone, PartialEq, Eq)]
pub struct PacketBuffer(pub Vec<u32>);

/// An audio packet.
#[derive(Debug, Clone, PartialEq, Eq)]
pub struct AudioPacket {
    /// Always `MAGIC_AUDIO`.
    pub magic: u32,
    /// Always zero for now.
    pub flags: u32,
    /// The stream this packet belongs to.
    pub sid: SessionId,
    /// Packet sequence number: monotonic and gapless from an arbitrary start.
    pub seq: u64,
    /// When the packet's first frame is to be played, on the stream's clock.
    pub pts: TimestampMicros,
    /// The stream's clock when the packet was sent.
    pub dts: TimestampMicros,
    /// The audio.
    pub buffer: PacketBuffer,
}

} // verus!
