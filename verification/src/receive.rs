use vstd::prelude::*;

use crate::aggregate::{Aggregate, AGGREGATE_WINDOW};
use crate::node::NodeStats;
use crate::report::{report_of, stats_payload, stats_payload_spec, ReceiverStats};
use crate::packet::{AudioPacketView, Packet, StatsReplyView};
use crate::protocol::{
    time_phase, AudioPacket, ReceiverId, SessionId, StatsReplyFlags, StatsReplyPacket, TimePacket,
    TimePhase, TimestampMicros, FRAMES_PER_PACKET, MAGIC_STATS_REPLY, SAMPLE_RATE,
    SAMPLES_PER_PACKET,
};
use crate::playback::{
    consume_frames, entries_wf, entry_pending, frames_left, pending_samples, play_position,
    queued_frames, silence, sync_queue, SyncOutcome,
};
use crate::status::{LatencySample, Status, StreamStatus};
use crate::time::{micros_to_frames, SampleDuration, Timestamp, TimestampDelta};

verus! {

/// A sample rate in frames per second.
#[derive(Debug, Clone, Copy, PartialEq, Eq)]
pub struct SampleRate(pub u32);

/// The time at which audio is actually played (`real`) next to the time
/// the stream meant it to be played (`play`).
#[derive(Debug, Clone, Copy, PartialEq, Eq)]
pub struct Timing {
    pub real: Timestamp,
    pub play: Timestamp,
}

/// Offset below which a slewing receiver counts as back in sync: 100
/// microseconds, in frames.
pub const STOP_SLEW_FRAMES: u64 = 4;

/// Offset from which a synced receiver starts to slew: 2 milliseconds, in
/// frames.
pub const START_SLEW_FRAMES: u64 = 96;

/// How far real playback runs ahead of the stream (negative when behind),
/// in frames.
pub open spec fn timing_offset(timing: Timing) -> int {
    timing.real.0 - timing.play.0
}

/// The playback rate that brings an offset of `offset` frames back to zero
/// over half a second, limited to between 98% and 200% of the stream rate.
pub open spec fn slew_rate(offset: int) -> int {
    let rate = SAMPLE_RATE + 2 * offset;
    let low = SAMPLE_RATE * 98 / 100;
    let high = SAMPLE_RATE * 2;
    if rate < low {
        low
    } else if rate > high {
        high
    } else {
        rate
    }
}

/// The adjusted rate for `offset` from a receiver that is slewing when
/// `slewing` holds, and whether it slews afterwards: a receiver stops
/// slewing once within `STOP_SLEW_FRAMES` of the stream, starts only once
/// `START_SLEW_FRAMES` away, and in between keeps doing what it did.
pub open spec fn rate_decision(slewing: bool, offset: int) -> (bool, Option<int>) {
    let magnitude = if offset < 0 { -offset } else { offset };
    if magnitude < STOP_SLEW_FRAMES {
        (false, None)
    } else if magnitude < START_SLEW_FRAMES && !slewing {
        (false, None)
    } else {
        (true, Some(slew_rate(offset)))
    }
}

/// Decides the playback rate that keeps a receiver in sync with its stream.
pub struct RateAdjust {
    pub slew: bool,
}

impl RateAdjust {
    /// A rate adjustment that is not slewing.
    pub fn new() -> (r: Self)
        ensures
            !r.slew,
    {
        RateAdjust { slew: false }
    }

    /// Whether the playback rate is being adjusted.
    pub fn slew(&self) -> (r: bool)
        ensures
            r == self.slew,
    {
        self.slew
    }

    /// The rate to play at given `timing`: the stream's rate, or a slewed
    /// one while out of sync (see `rate_decision`).
    pub fn sample_rate(&mut self, timing: Timing) -> (r: SampleRate)
        ensures
            final(self).slew == rate_decision(old(self).slew, timing_offset(timing)).0,
            r.0 == match rate_decision(old(self).slew, timing_offset(timing)).1 {
                Some(rate) => rate,
                None => SAMPLE_RATE as int,
            },
    {
        match self.adjusted_rate(timing) {
            Some(rate) => rate,
            None => SampleRate(SAMPLE_RATE),
        }
    }

    fn adjusted_rate(&mut self, timing: Timing) -> (r: Option<SampleRate>)
        ensures
            final(self).slew == rate_decision(old(self).slew, timing_offset(timing)).0,
            match r {
                Some(rate) => rate_decision(old(self).slew, timing_offset(timing)).1 == Some(
                    rate.0 as int,
                ),
                None => rate_decision(old(self).slew, timing_offset(timing)).1 is None,
            },
    {
        // thresholds, turned into frames
        let start_slew_threshold = SampleDuration::from_std_duration_lossy(2000);
        let stop_slew_threshold = SampleDuration::from_std_duration_lossy(100);
        let slew_target_micros: i128 = 500_000;

        let frame_offset = timing.real.0 as i128 - timing.play.0 as i128;
        let magnitude = if frame_offset < 0 { -frame_offset } else { frame_offset };

        if magnitude < stop_slew_threshold.0 as i128 {
            self.slew = false;
            return None;
        }

        if magnitude < start_slew_threshold.0 as i128 && !self.slew {
            return None;
        }

        let base_sample_rate = SAMPLE_RATE as i128;
        let rate_offset = frame_offset * 1_000_000 / slew_target_micros;
        assert(rate_offset == 2 * frame_offset);
        let rate = base_sample_rate + rate_offset;

        // clamp any potential slow down to 2%, we shouldn't ever get too far
        // ahead of the stream
        let low = base_sample_rate * 98 / 100;
        let rate = if rate < low { low } else { rate };

        // let the speed up run much higher, but keep it reasonable still
        let high = base_sample_rate * 2;
        let rate = if rate > high { high } else { rate };

        self.slew = true;
        Some(SampleRate(rate as u32))
    }
}


/// Options of a receiver.
#[derive(Debug, Clone, Copy, PartialEq, Eq)]
pub struct ReceiverOpt {
    /// How far ahead of the newest queued packet a packet's sequence number
    /// may lie before the receiver gives up on the gap and restarts.
    pub max_seq_gap: usize,
}

/// The abstract content of a queue slot.
pub struct EntryView {
    pub seq: u64,
    pub pts: Option<Timestamp>,
    pub consumed: u64,
    pub packet: Option<AudioPacketView>,
}

/// A slot of the receive queue: the packet with sequence number `seq`, if
/// it has arrived, when it is due on the receiver's clock, if known, and how
/// much of it has been played.
pub struct QueueEntry {
    pub seq: u64,
    pub pts: Option<Timestamp>,
    pub consumed: SampleDuration,
    pub packet: Option<AudioPacket>,
}

impl View for QueueEntry {
    type V = EntryView;

    open spec fn view(&self) -> EntryView {
        EntryView {
            seq: self.seq,
            pts: self.pts,
            consumed: self.consumed.0,
            packet: match self.packet {
                Some(p) => Some(p@),
                None => None,
            },
        }
    }
}

/// The abstract content of a sequence of queue slots.
pub open spec fn entries_view(s: Seq<QueueEntry>) -> Seq<EntryView> {
    s.map_values(|e: QueueEntry| e@)
}

/// An empty slot for the packet with sequence number `seq`.
pub open spec fn empty_entry(seq: u64) -> EntryView {
    EntryView { seq, pts: None, consumed: 0, packet: None }
}

/// The samples a slot plays: its packet's, or silence if it never arrived.
pub open spec fn entry_samples(e: EntryView) -> Seq<u32> {
    match e.packet {
        Some(p) => p.buffer,
        None => Seq::new(SAMPLES_PER_PACKET as nat, |i: int| 0u32),
    }
}

/// A queue holds consecutive sequence numbers from its front, each slot
/// consumed by at most one packet's worth, each packet of full length.
pub open spec fn queue_wf(q: Seq<EntryView>) -> bool {
    forall|i: int|
        #![trigger q[i]]
        0 <= i < q.len() ==> {
            &&& q[i].seq == q[0].seq + i
            &&& q[i].consumed < FRAMES_PER_PACKET
            &&& (q[i].packet matches Some(p) ==> p.buffer.len() == SAMPLES_PER_PACKET)
        }
}

impl QueueEntry {
    /// The samples this slot plays: its packet's, or silence.
    pub fn as_full_buffer(&self) -> (r: Vec<u32>)
        ensures
            r@ == entry_samples(self@),
    {
        match &self.packet {
            Some(packet) => packet.buffer.0.clone(),
            None => {
                let mut zeros: Vec<u32> = Vec::new();
                let mut k: usize = 0;
                while k < SAMPLES_PER_PACKET
                    invariant
                        k <= SAMPLES_PER_PACKET,
                        zeros@ =~= Seq::new(k as nat, |i: int| 0u32),
                    decreases SAMPLES_PER_PACKET - k,
                {
                    zeros.push(0);
                    k += 1;
                }
                zeros
            },
        }
    }
}

/// The difference between the receiver's clock and the stream's, in
/// microseconds (positive when the receiver's clock is ahead).
#[derive(Debug, Clone, Copy, PartialEq, Eq)]
pub struct ClockDelta(pub i64);

/// A completed time exchange always gives the clock difference it shows,
/// whichever clock is ahead: the receiver's time `receive_2` less the
/// midpoint of the stream's `stream_1` and `stream_3`, whenever that fits in
/// an `i64`, and nothing otherwise.
pub proof fn lemma_clock_delta_of_exchange(p: TimePacket)
    ensures
        i64::MIN <= p.receive_2.0 - (p.stream_1.0 + p.stream_3.0) / 2 <= i64::MAX
            ==> ClockDelta::from_time_packet_spec(p) == Some(
            ClockDelta((p.receive_2.0 - (p.stream_1.0 + p.stream_3.0) / 2) as i64),
        ),
        !(i64::MIN <= p.receive_2.0 - (p.stream_1.0 + p.stream_3.0) / 2 <= i64::MAX)
            ==> ClockDelta::from_time_packet_spec(p) is None,
{
}

/// The clock difference a completed time exchange shows: the receiver's
/// time `receive_2` against the midpoint of the stream's `stream_1` and
/// `stream_3`.
pub open spec fn clock_delta_of(p: TimePacket) -> int {
    p.receive_2.0 - (p.stream_1.0 + p.stream_3.0) / 2
}

impl ClockDelta {
    /// The clock difference a completed time exchange shows, if it fits.
    pub open spec fn from_time_packet_spec(p: TimePacket) -> Option<ClockDelta> {
        if i64::MIN <= clock_delta_of(p) <= i64::MAX {
            Some(ClockDelta(clock_delta_of(p) as i64))
        } else {
            None
        }
    }

    /// The clock difference a completed time exchange shows, or `None` if
    /// it does not fit in an `i64`.
    pub fn from_time_packet(packet: &TimePacket) -> (r: Option<ClockDelta>)
        ensures
            r == ClockDelta::from_time_packet_spec(*packet),
            r is Some <==> i64::MIN <= packet.receive_2.0 - (packet.stream_1.0 + packet.stream_3.0)
                / 2 <= i64::MAX,
            r matches Some(d) ==> d.0 == packet.receive_2.0 - (packet.stream_1.0
                + packet.stream_3.0) / 2,
    {
        let mid = (packet.stream_1.0 as i128 + packet.stream_3.0 as i128) / 2;
        let delta = packet.receive_2.0 as i128 - mid;
        if delta >= i64::MIN as i128 && delta <= i64::MAX as i128 {
            Some(ClockDelta(delta as i64))
        } else {
            None
        }
    }

    /// This difference in microseconds.
    pub fn as_micros(&self) -> (r: i64)
        ensures
            r == self.0,
    {
        self.0
    }
}

/// The audio stream a receiver is following.
pub struct Stream {
    pub sid: SessionId,
    pub start_seq: u64,
    pub sync: bool,
    pub rate_adjust: RateAdjust,
    /// One-way network latency observations, in microseconds.
    pub latency: Aggregate,
    /// Clock difference observations, in microseconds.
    pub clock_delta: Aggregate,
}

/// `micros` microseconds as a signed number of frames, rounded towards zero.
pub open spec fn delta_frames(micros: int) -> int {
    if micros < 0 {
        -micros_to_frames(-micros)
    } else {
        micros_to_frames(micros)
    }
}

/// `pts` moved from the stream's clock onto the receiver's by the clock
/// difference `median`, if one is known and the result is a timestamp.
pub open spec fn adjusted_pts(median: Option<int>, pts: Timestamp) -> Option<Timestamp> {
    match median {
        None => None,
        Some(m) => if 0 <= pts.0 + delta_frames(m) <= u64::MAX {
            Some(Timestamp((pts.0 + delta_frames(m)) as u64))
        } else {
            None
        },
    }
}

impl Stream {
    /// Aggregates are well formed and latencies are never negative.
    pub open spec fn wf(&self) -> bool {
        &&& self.latency.wf()
        &&& self.clock_delta.wf()
        &&& forall|i: int|
            #![trigger self.latency.window()[i]]
            0 <= i < self.latency.window().len() ==> self.latency.window()[i] >= 0
    }

    /// A stream that starts at `seq` of session `sid`, with nothing
    /// measured yet.
    pub open spec fn is_fresh(&self, sid: SessionId, seq: u64) -> bool {
        &&& self.wf()
        &&& self.sid == sid
        &&& self.start_seq == seq
        &&& !self.sync
        &&& !self.rate_adjust.slew
        &&& self.latency.window().len() == 0
        &&& self.clock_delta.window().len() == 0
    }

    /// A new stream starting from `packet`.
    pub fn start_from_packet(packet: &AudioPacket) -> (r: Self)
        ensures
            r.is_fresh(packet.sid, packet.seq),
    {
        Stream {
            sid: packet.sid,
            start_seq: packet.seq,
            sync: false,
            rate_adjust: RateAdjust::new(),
            latency: Aggregate::new(),
            clock_delta: Aggregate::new(),
        }
    }

    /// `pts`, a time on the stream's clock, moved onto the receiver's clock
    /// by the median clock difference; `None` while no difference is known.
    pub fn adjust_pts(&self, pts: Timestamp) -> (r: Option<Timestamp>)
        requires
            self.wf(),
        ensures
            r == adjusted_pts(self.clock_delta.median_spec(), pts),
    {
        match self.clock_delta.median() {
            Some(delta) => pts.adjust(TimestampDelta::from_micros_lossy(delta)),
            None => None,
        }
    }

    /// The median one-way network latency in microseconds, if measured.
    pub fn network_latency(&self) -> (r: Option<u64>)
        requires
            self.wf(),
        ensures
            match r {
                Some(l) => self.latency.median_spec() == Some(l as int),
                None => self.latency.median_spec() is None,
            },
    {
        match self.latency.median() {
            Some(l) => {
                proof {
                    crate::aggregate::lemma_median_is_observed(&self.latency);
                }
                Some(l as u64)
            },
            None => None,
        }
    }
}

/// What a receiver does with an audio packet.
pub enum Admission {
    /// Drops it.
    Ignore,
    /// Starts a new stream from it, forgetting the queue.
    Start,
    /// Queues it in the current stream.
    Continue,
}

/// The predicted data timestamp of a packet against the one it carries:
/// a packet received at `now` after `latency` microseconds in flight was
/// sent at `now - latency` on the receiver's clock, which is `delta` ahead
/// of the stream's. `None` when a value falls outside the range of the
/// clock or of the difference.
pub open spec fn predict_offset(now: u64, latency: int, delta: int, dts: u64) -> Option<i64> {
    let predicted = now - latency - delta;
    if now - latency >= 0 && 0 <= predicted <= i64::MAX && dts <= i64::MAX {
        Some((predicted - dts) as i64)
    } else {
        None
    }
}

/// The clock measurements of a time exchange, in microseconds.
#[derive(Debug, Clone, Copy, PartialEq, Eq)]
pub struct ClockInfo {
    pub network_latency_usec: i64,
    pub clock_diff_usec: i64,
}

/// Receives a stream's packets and plays them in sync with it.
pub struct Receiver {
    pub opt: ReceiverOpt,
    pub stats: Status,
    pub stream: Option<Stream>,
    pub queue: std::collections::VecDeque<QueueEntry>,
}

impl Receiver {
    /// The receive queue, front first.
    pub open spec fn queue_view(&self) -> Seq<EntryView> {
        entries_view(self.queue@)
    }

    /// A queue only exists while following a stream, is well formed, and
    /// never starts before the stream's first packet.
    pub open spec fn wf(&self) -> bool {
        &&& (self.stream is None ==> self.queue@.len() == 0)
        &&& (self.stream matches Some(s) ==> s.wf())
        &&& queue_wf(self.queue_view())
        &&& (self.stream matches Some(s) ==> (self.queue_view().len() > 0
            ==> self.queue_view()[0].seq >= s.start_seq))
    }

    /// What this receiver does with an audio packet carrying `flags`, `sid`
    /// and `seq`: packets with unknown flags, of an older session, from
    /// before the stream's start or not after the queue's front are
    /// dropped; a first packet, a newer session or a sequence number
    /// `max_seq_gap` or more beyond the queue's back starts a new stream.
    pub open spec fn admission(&self, flags: u32, sid: SessionId, seq: u64) -> Admission {
        let q = self.queue_view();
        if flags != 0 {
            Admission::Ignore
        } else {
            match self.stream {
                None => Admission::Start,
                Some(s) => if sid.0 < s.sid.0 {
                    Admission::Ignore
                } else if sid.0 > s.sid.0 {
                    Admission::Start
                } else if seq < s.start_seq {
                    Admission::Ignore
                } else if q.len() > 0 && seq <= q[0].seq {
                    Admission::Ignore
                } else if q.len() > 0 && seq >= q.last().seq + self.opt.max_seq_gap {
                    Admission::Start
                } else {
                    Admission::Continue
                },
            }
        }
    }

    /// A receiver following no stream.
    pub fn new(opt: ReceiverOpt) -> (r: Self)
        ensures
            r.wf(),
            r.opt == opt,
            r.stream is None,
            r.queue_view().len() == 0,
            r.stats == Status::new_spec(),
    {
        let queue = std::collections::VecDeque::with_capacity(opt.max_seq_gap);
        let r = Receiver { opt, stream: None, queue, stats: Status::new() };
        assert(r.queue_view() =~= Seq::<EntryView>::empty());
        r
    }

    /// What this receiver reports.
    pub fn stats(&self) -> (r: &Status)
        ensures
            *r == self.stats,
    {
        &self.stats
    }

    /// The session of the stream being followed, if any.
    pub fn current_session(&self) -> (r: Option<SessionId>)
        ensures
            r == match self.stream {
                Some(s) => Some(s.sid),
                None => None::<SessionId>,
            },
    {
        match &self.stream {
            Some(s) => Some(s.sid),
            None => None,
        }
    }
}


/// Observing a non-negative value keeps every value of the window
/// non-negative.
proof fn lemma_observe_nonnegative(before: &Aggregate, after: &Aggregate, value: i64)
    requires
        before.wf(),
        before.observed(after, value),
        value >= 0,
        forall|i: int|
            #![trigger before.window()[i]]
            0 <= i < before.window().len() ==> before.window()[i] >= 0,
    ensures
        forall|i: int|
            #![trigger after.window()[i]]
            0 <= i < after.window().len() ==> after.window()[i] >= 0,
{
    if before.filled() < AGGREGATE_WINDOW {
        assert forall|i: int| 0 <= i < after.window().len() implies #[trigger] after.window()[i]
            >= 0 by {
            if i < before.window().len() {
                assert(after.window()[i] == before.window()[i]);
            }
        }
    } else {
        assert forall|i: int| 0 <= i < after.window().len() implies #[trigger] after.window()[i]
            >= 0 by {
            assert(after.window()[i] == after.slots()[i]);
            if i != before.cursor() {
                assert(before.window()[i] == before.slots()[i]);
            }
        }
    }
}

impl Receiver {
    /// `after` is this receiver once the stream's answer `packet` in a time
    /// exchange has been taken in.
    pub open spec fn received_time(&self, after: &Receiver, packet: &TimePacket) -> bool {
        &&& after.wf()
        &&& after.opt == self.opt
        &&& after.queue@ == self.queue@
        &&& match self.stream {
            Some(s) if s.sid == packet.sid && packet.stream_1.0 <= packet.stream_3.0 => {
                let latency = ((packet.stream_3.0 - packet.stream_1.0) / 2) as i64;
                &&& after.stream matches Some(t) && {
                    &&& t.sid == s.sid
                    &&& t.start_seq == s.start_seq
                    &&& t.sync == s.sync
                    &&& t.rate_adjust == s.rate_adjust
                    &&& s.latency.observed(&t.latency, latency)
                    &&& match ClockDelta::from_time_packet_spec(*packet) {
                        Some(d) => s.clock_delta.observed(&t.clock_delta, d.0),
                        None => t.clock_delta == s.clock_delta,
                    }
                    &&& t.latency.median_spec() matches Some(m)
                    &&& after.stats == (Status {
                        network_latency_micros: Some(m as u64),
                        ..self.stats
                    })
                }
            },
            _ => {
                &&& after.stream == self.stream
                &&& after.stats == self.stats
            },
        }
    }

    /// Takes in the stream's answer in a time exchange. For the stream
    /// being followed, it records half the round trip as a network latency
    /// observation (the median of which becomes the reported latency) and
    /// the exchange's clock difference as a clock observation. Packets of
    /// other sessions, with no stream, or with a round trip that ends
    /// before it starts change nothing.
    pub fn receive_time(&mut self, packet: &TimePacket)
        requires
            old(self).wf(),
        ensures
            old(self).received_time(&*final(self), packet),
    {
        let ghost q = self.queue_view();
        let mut stream = match self.stream.take() {
            Some(stream) => stream,
            None => { return; },
        };
        let ghost s = stream;

        if stream.sid.0 != packet.sid.0 {
            self.stream = Some(stream);
            return;
        }

        let stream_1_usec = packet.stream_1.0;
        let stream_3_usec = packet.stream_3.0;

        if stream_3_usec < stream_1_usec {
            self.stream = Some(stream);
            return;
        }
        let rtt_usec = stream_3_usec - stream_1_usec;

        let network_latency = (rtt_usec / 2) as i64;
        stream.latency.observe(network_latency);
        proof {
            lemma_observe_nonnegative(&s.latency, &stream.latency, network_latency);
        }

        match stream.network_latency() {
            Some(latency) => self.stats.record_network_latency(latency),
            None => {},
        }

        match ClockDelta::from_time_packet(packet) {
            Some(clock_delta) => stream.clock_delta.observe(clock_delta.0),
            None => {},
        }

        self.stream = Some(stream);
        assert(self.queue_view() == q);
    }
}


/// What the network side of a receiver sends back for a packet.
#[derive(Debug, Clone, PartialEq, Eq)]
pub enum ReceiverAction {
    /// Nothing.
    Ignore,
    /// This packet, to the packet's sender.
    Reply(Packet),
}

/// The statistics reply of a receiver with the status `stats`, following
/// the stream `sid` (session zero when it follows none), run on `node`: its
/// report, then its node statistics.
pub open spec fn receiver_stats_reply(stats: Status, sid: Option<SessionId>, node: NodeStats) -> StatsReplyView {
    StatsReplyView {
        magic: MAGIC_STATS_REPLY,
        flags: 0x01,
        sid: match sid {
            Some(s) => s.0,
            None => 0,
        },
        payload: stats_payload_spec(report_of(stats, sid is Some), node),
    }
}

/// Whether the queue `q` holds `packet` itself in the slot for its
/// sequence number.
pub open spec fn slot_holds(q: Seq<QueueEntry>, packet: AudioPacket) -> bool {
    &&& q.len() > 0
    &&& q[0].seq <= packet.seq < q[0].seq + q.len()
    &&& q[packet.seq - q[0].seq].packet == Some(packet)
}

/// Whether every slot of `old` other than the one for `seq` is unchanged,
/// at the same place, in `new`.
pub open spec fn keeps_other_slots(old: Seq<QueueEntry>, new: Seq<QueueEntry>, seq: u64) -> bool {
    forall|i: int| 0 <= i < old.len() && old[i].seq != seq ==> #[trigger] new[i] == old[i]
}

/// The queue `q` once the packet with sequence number `seq` has been put
/// in its slot with that packet and the due time `pts`: an empty queue gets
/// the one slot; a queue whose back lies before `seq` is first extended
/// with empty slots up to it; a slot already present keeps how much of it
/// was played.
pub open spec fn placed_queue(
    q: Seq<EntryView>,
    seq: u64,
    pts: Option<Timestamp>,
    packet: AudioPacketView,
) -> Seq<EntryView> {
    let front: int = if q.len() == 0 { seq as int } else { q[0].seq as int };
    let len: int = if q.len() == 0 {
        1
    } else if seq > q.last().seq {
        seq - front + 1
    } else {
        q.len() as int
    };
    Seq::new(
        len as nat,
        |i: int|
            if i == seq - front {
                EntryView {
                    seq,
                    pts,
                    consumed: if i < q.len() { q[i].consumed } else { 0 },
                    packet: Some(packet),
                }
            } else if i < q.len() {
                q[i]
            } else {
                empty_entry((front + i) as u64)
            },
    )
}

/// The status once a packet carrying data timestamp `dts` has been
/// received at `now` by a receiver of stream `s`: the prediction difference
/// is recorded when latency and clock difference are known and it is
/// defined.
pub open spec fn status_after_packet(
    stats: Status,
    s: Stream,
    now: Option<TimestampMicros>,
    dts: u64,
) -> Status {
    match (s.latency.median_spec(), s.clock_delta.median_spec(), now) {
        (Some(l), Some(d), Some(n)) => match predict_offset(n.0, l, d, dts) {
            Some(v) => Status { predict_micros: Some(v), ..stats },
            None => stats,
        },
        _ => stats,
    }
}

impl Receiver {
    /// `after` is this receiver once `packet` has been received at `now`.
    pub open spec fn received_audio(
        &self,
        after: &Receiver,
        packet: &AudioPacket,
        now: Option<TimestampMicros>,
    ) -> bool {
        &&& after.wf()
        &&& after.opt == self.opt
        &&& match self.admission(packet.flags, packet.sid, packet.seq) {
            Admission::Ignore => {
                &&& after.stream == self.stream
                &&& after.stats == self.stats
                &&& after.queue@ == self.queue@
            },
            Admission::Start => {
                &&& after.stream matches Some(t) && t.is_fresh(packet.sid, packet.seq)
                &&& slot_holds(after.queue@, *packet)
                &&& after.stats == self.stats.cleared()
                &&& after.queue_view() == seq![
                    EntryView {
                        seq: packet.seq,
                        pts: None,
                        consumed: 0,
                        packet: Some(packet@),
                    },
                ]
            },
            Admission::Continue => {
                &&& after.stream == self.stream
                &&& self.stream matches Some(s) && {
                    &&& after.stats == status_after_packet(
                        self.stats,
                        s,
                        now,
                        packet.dts.0,
                    )
                    &&& after.queue_view() == placed_queue(
                        self.queue_view(),
                        packet.seq,
                        adjusted_pts(
                            s.clock_delta.median_spec(),
                            Timestamp(micros_to_frames(packet.pts.0 as int) as u64),
                        ),
                        packet@,
                    )
                    &&& slot_holds(after.queue@, *packet)
                    &&& keeps_other_slots(self.queue@, after.queue@, packet.seq)
                }
            },
        }
    }

    /// Decides what to do with `packet` (see `admission`) and starts a new
    /// stream when that is the decision. Returns whether to queue it.
    fn prepare_stream(&mut self, packet: &AudioPacket) -> (r: bool)
        requires
            old(self).wf(),
            packet.flags == 0,
        ensures
            final(self).wf(),
            final(self).opt == old(self).opt,
            match old(self).admission(packet.flags, packet.sid, packet.seq) {
                Admission::Ignore => {
                    &&& !r
                    &&& final(self).stream == old(self).stream
                    &&& final(self).stats == old(self).stats
                    &&& final(self).queue@ == old(self).queue@
                },
                Admission::Start => {
                    &&& r
                    &&& final(self).stream matches Some(t) && t.is_fresh(packet.sid, packet.seq)
                    &&& final(self).stats == old(self).stats.cleared()
                    &&& final(self).queue_view().len() == 0
                },
                Admission::Continue => {
                    &&& r
                    &&& final(self).stream == old(self).stream
                    &&& final(self).stats == old(self).stats
                    &&& final(self).queue@ == old(self).queue@
                },
            },
    {
        let ghost q = self.queue_view();
        match &self.stream {
            Some(stream) => {
                if packet.sid.0 < stream.sid.0 {
                    // packet belongs to a previous stream, ignore
                    return false;
                }

                if packet.sid.0 > stream.sid.0 {
                    // new stream is taking over! switch over to it
                    self.stream = Some(Stream::start_from_packet(packet));
                    self.stats.clear_stream();
                    self.queue.clear();
                    assert(self.queue_view() =~= Seq::<EntryView>::empty());
                    return true;
                }

                if packet.seq < stream.start_seq {
                    // received packet with seq before start, dropping
                    return false;
                }

                if self.queue.len() > 0 {
                    let front_seq = self.queue[0].seq;
                    assert(front_seq == q[0].seq);
                    if packet.seq <= front_seq {
                        // received packet with seq <= queue front seq, dropping
                        return false;
                    }

                    let back_seq = self.queue[self.queue.len() - 1].seq;
                    assert(back_seq == q.last().seq);
                    if packet.seq >= back_seq && packet.seq - back_seq >= self.opt.max_seq_gap as u64 {
                        // received packet with seq too far in future, resetting stream
                        self.stream = Some(Stream::start_from_packet(packet));
                        self.stats.clear_stream();
                        self.queue.clear();
                        assert(self.queue_view() =~= Seq::<EntryView>::empty());
                    }
                }

                true
            },
            None => {
                self.stream = Some(Stream::start_from_packet(packet));
                self.stats.clear_stream();
                true
            },
        }
    }

    /// Takes in an audio packet received at `now` (on the receiver's
    /// clock, if it could be read). What happens is decided by `admission`:
    /// a dropped packet changes nothing; a packet that starts a stream
    /// becomes the only slot of the queue of a fresh stream, with the
    /// status cleared; otherwise the packet takes its slot in the queue
    /// (see `placed_queue`), due at its presentation time moved onto the
    /// receiver's clock, and the status records how far its data timestamp
    /// lay from the predicted one (see `status_after_packet`).
    pub fn receive_audio_at(&mut self, packet: AudioPacket, now: Option<TimestampMicros>)
        requires
            old(self).wf(),
            packet.buffer.0@.len() == SAMPLES_PER_PACKET,
        ensures
            old(self).received_audio(&*final(self), &packet, now),
    {
        if packet.flags != 0 {
            // unknown flags in packet, ignoring entire packet
            return;
        }

        if !self.prepare_stream(&packet) {
            return;
        }

        let ghost q = self.queue_view();
        let ghost stats0 = self.stats;

        // prepare_stream only queues the packet when following a stream
        let stream = match &self.stream {
            Some(stream) => stream,
            None => { return; },
        };

        match stream.network_latency() {
            Some(latency_usec) => match stream.clock_delta.median() {
                Some(delta_usec) => match now {
                    Some(now) => {
                        let predicted = now.0 as i128 - latency_usec as i128 - delta_usec as i128;
                        if now.0 as i128 - latency_usec as i128 >= 0 && predicted >= 0
                            && predicted <= i64::MAX as i128 && packet.dts.0 <= i64::MAX as u64 {
                            let predict_diff = (predicted - packet.dts.0 as i128) as i64;
                            self.stats.record_dts_prediction_difference(predict_diff);
                        }
                    },
                    None => {},
                },
                None => {},
            },
            None => {},
        }

        let pts = stream.adjust_pts(Timestamp::from_micros_lossy(packet.pts));
        proof {
            if q.len() > 0 {
                assert(q[0].seq < packet.seq);
            }
        }
        let ghost p = packet;
        self.place_packet(packet, pts);
        proof {
            if q.len() == 0 {
                assert(self.queue_view() =~= seq![
                    EntryView { seq: p.seq, pts, consumed: 0, packet: Some(p@) },
                ]);
            }
        }
    }

    /// Takes in an audio packet, received now: `receive_audio_at` with the
    /// receiver's clock read at the time of the call.
    pub fn receive_audio(&mut self, packet: AudioPacket)
        requires
            old(self).wf(),
            packet.buffer.0@.len() == SAMPLES_PER_PACKET,
        ensures
            exists|now: Option<TimestampMicros>| old(self).received_audio(&*final(self), &packet, now),
    {
        let now = TimestampMicros::now();
        let ghost p = packet;
        self.receive_audio_at(packet, now);
        assert(old(self).received_audio(&*self, &p, now));
    }

    /// A packet of the followed session whose sequence number lies
    /// `max_seq_gap` or more past the back of the queue restarts the stream
    /// from it: the receiver follows a fresh stream of that session starting
    /// at the packet, its status is cleared, and its queue holds just the
    /// packet's slot.
    pub proof fn lemma_far_ahead_packet_restarts(
        &self,
        after: &Receiver,
        packet: &AudioPacket,
        now: Option<TimestampMicros>,
    )
        requires
            self.wf(),
            self.received_audio(after, packet, now),
            packet.flags == 0,
            self.opt.max_seq_gap > 0,
            self.stream matches Some(s) && s.sid == packet.sid,
            self.queue@.len() > 0,
            packet.seq >= self.queue@.last().seq + self.opt.max_seq_gap,
        ensures
            after.stream matches Some(t) && {
                &&& t.sid == packet.sid
                &&& t.start_seq == packet.seq
                &&& !t.sync
            },
            after.stats == self.stats.cleared(),
            after.queue@.len() == 1,
            after.queue@[0].seq == packet.seq,
            after.queue@[0].pts is None,
            after.queue@[0].consumed.0 == 0,
            after.queue@[0].packet == Some(*packet),
    {
        let q = self.queue_view();
        assert(q.last() == self.queue@.last()@);
        assert(q[0] == self.queue@[0]@);
        assert(after.queue_view().len() == after.queue@.len());
        assert(after.queue_view()[0] == after.queue@[0]@);
    }

    /// A packet of the followed session whose sequence number lies after
    /// the front of the queue and less than `max_seq_gap` past its back
    /// keeps the stream: the packet takes its slot, counted from the
    /// unchanged front, and every other slot stays as it was.
    pub proof fn lemma_near_packet_is_queued(
        &self,
        after: &Receiver,
        packet: &AudioPacket,
        now: Option<TimestampMicros>,
    )
        requires
            self.wf(),
            self.received_audio(after, packet, now),
            packet.flags == 0,
            self.stream matches Some(s) && s.sid == packet.sid,
            self.queue@.len() > 0,
            self.queue@[0].seq < packet.seq < self.queue@.last().seq + self.opt.max_seq_gap,
        ensures
            after.stream == self.stream,
            after.queue@.len() > packet.seq - self.queue@[0].seq,
            after.queue@[0].seq == self.queue@[0].seq,
            after.queue@[packet.seq - self.queue@[0].seq].packet == Some(*packet),
            forall|i: int|
                0 <= i < self.queue@.len() && self.queue@[i].seq != packet.seq
                    ==> #[trigger] after.queue@[i] == self.queue@[i],
    {
        let q = self.queue_view();
        assert(q.last() == self.queue@.last()@);
        assert(q[0] == self.queue@[0]@);
        assert(self.queue@[0] == self.queue@[0]);
    }

    /// `after` is this receiver, and `r` its answer, once the receiver at
    /// `rid`, run on `node`, has handled `packet` received at `now`.
    pub open spec fn handled_packet(
        &self,
        after: &Receiver,
        packet: Packet,
        rid: ReceiverId,
        node: NodeStats,
        now: Option<TimestampMicros>,
        r: ReceiverAction,
    ) -> bool {
        &&& after.wf()
        &&& match packet {
            Packet::Time(t) => if !(t.rid.0 == 0 || t.rid.0 == rid.0) {
                r is Ignore && *after == *self
            } else {
                match time_phase(t) {
                    Some(TimePhase::Broadcast) => *after == *self && r == (match now {
                        Some(n) => ReceiverAction::Reply(
                            Packet::Time(TimePacket { receive_2: n, rid: rid, ..t }),
                        ),
                        None => ReceiverAction::Ignore,
                    }),
                    Some(TimePhase::StreamReply) => r is Ignore && self.received_time(
                        after,
                        &t,
                    ),
                    _ => r is Ignore && *after == *self,
                }
            },
            Packet::Audio(a) => r is Ignore && self.received_audio(after, &a, now),
            Packet::StatsRequest(_) => *after == *self && (r matches ReceiverAction::Reply(
                Packet::StatsReply(p),
            ) && p@ == receiver_stats_reply(
                self.stats,
                match self.stream {
                    Some(s) => Some(s.sid),
                    None => None,
                },
                node,
            )),
            Packet::StatsReply(_) => r is Ignore && *after == *self,
        }
    }

    /// What the receiver at `rid`, run on `node`, does with `packet`,
    /// received at `now`: it answers a time broadcast addressed to it with
    /// its own time and identifier, takes in the stream's answer to that,
    /// takes in audio, and answers a statistics request with its own;
    /// everything else, including time packets addressed to another
    /// receiver, it ignores.
    pub fn handle_packet_at(
        &mut self,
        packet: Packet,
        rid: ReceiverId,
        node: &NodeStats,
        now: Option<TimestampMicros>,
    ) -> (r: ReceiverAction)
        requires
            old(self).wf(),
            packet matches Packet::Audio(a) ==> a.buffer.0@.len() == SAMPLES_PER_PACKET,
        ensures
            old(self).handled_packet(&*final(self), packet, rid, *node, now, r),
    {
        match packet {
            Packet::Time(t) => {
                if !t.rid.matches(&rid) {
                    return ReceiverAction::Ignore;
                }
                match t.phase() {
                    Some(TimePhase::Broadcast) => match now {
                        Some(n) => ReceiverAction::Reply(
                            Packet::Time(TimePacket { receive_2: n, rid: rid, ..t }),
                        ),
                        None => ReceiverAction::Ignore,
                    },
                    Some(TimePhase::StreamReply) => {
                        self.receive_time(&t);
                        ReceiverAction::Ignore
                    },
                    _ => ReceiverAction::Ignore,
                }
            },
            Packet::Audio(a) => {
                self.receive_audio_at(a, now);
                ReceiverAction::Ignore
            },
            Packet::StatsRequest(_) => {
                let sid = self.current_session();
                let report = ReceiverStats::from_status(&self.stats, sid.is_some());
                let reply = StatsReplyPacket {
                    magic: MAGIC_STATS_REPLY,
                    flags: StatsReplyFlags::is_receiver(),
                    sid: match sid {
                        Some(s) => s,
                        None => SessionId(0),
                    },
                    payload: stats_payload(&report, node),
                };
                ReceiverAction::Reply(Packet::StatsReply(reply))
            },
            Packet::StatsReply(_) => ReceiverAction::Ignore,
        }
    }

    /// What the receiver at `rid`, run on `node`, does with `packet`,
    /// received now: `handle_packet_at` with the receiver's clock read at
    /// the time of the call.
    pub fn handle_packet(&mut self, packet: Packet, rid: ReceiverId, node: &NodeStats) -> (r:
        ReceiverAction)
        requires
            old(self).wf(),
            packet matches Packet::Audio(a) ==> a.buffer.0@.len() == SAMPLES_PER_PACKET,
        ensures
            exists|now: Option<TimestampMicros>|
                old(self).handled_packet(&*final(self), packet, rid, *node, now, r),
    {
        let now = TimestampMicros::now();
        self.handle_packet_at(packet, rid, node, now)
    }

    /// Puts `packet` into its slot of the queue, due at `pts`, extending the
    /// queue with empty slots up to it where needed.
    fn place_packet(&mut self, packet: AudioPacket, pts: Option<Timestamp>)
        requires
            queue_wf(old(self).queue_view()),
            packet.buffer.0@.len() == SAMPLES_PER_PACKET,
            old(self).queue_view().len() > 0 ==> old(self).queue_view()[0].seq < packet.seq,
        ensures
            final(self).queue_view() == placed_queue(
                old(self).queue_view(),
                packet.seq,
                pts,
                packet@,
            ),
            queue_wf(final(self).queue_view()),
            slot_holds(final(self).queue@, packet),
            keeps_other_slots(old(self).queue@, final(self).queue@, packet.seq),
            final(self).stream == old(self).stream,
            final(self).stats == old(self).stats,
            final(self).opt == old(self).opt,
    {
        let ghost q = self.queue_view();
        let ghost q0 = self.queue@;
        let ghost pv = packet@;
        let seq = packet.seq;

        // expand the queue to make space for the new packet
        if self.queue.len() > 0 {
            let back_seq = self.queue[self.queue.len() - 1].seq;
            assert(back_seq == q.last().seq);
            assert(q[q.len() - 1].seq == q[0].seq + q.len() - 1);
            if seq > back_seq {
                let mut next = back_seq;
                while next < seq
                    invariant
                        back_seq <= next <= seq,
                        q.len() > 0,
                        back_seq == q.last().seq,
                        self.stream == old(self).stream,
                        self.stats == old(self).stats,
                        self.opt == old(self).opt,
                        self.queue_view() =~= q + Seq::new(
                            (next - back_seq) as nat,
                            |i: int| empty_entry((back_seq + 1 + i) as u64),
                        ),
                        self.queue@.len() >= q0.len(),
                        self.queue@.subrange(0, q0.len() as int) == q0,
                        q.len() == q0.len(),
                    decreases seq - next,
                {
                    let ghost before = self.queue@;
                    next += 1;
                    let entry = QueueEntry {
                        seq: next,
                        pts: None,
                        consumed: SampleDuration(0),
                        packet: None,
                    };
                    self.queue.push_back(entry);
                    assert(self.queue@ == before.push(entry));
                    assert(self.queue_view() =~= entries_view(before).push(entry@));
                    assert(self.queue@.subrange(0, q0.len() as int) =~= before.subrange(
                        0,
                        q0.len() as int,
                    ));
                }
            }
        } else {
            // queue is empty, make the slot for this packet
            let ghost before = self.queue@;
            let entry = QueueEntry { seq, pts: None, consumed: SampleDuration(0), packet: None };
            self.queue.push_back(entry);
            assert(self.queue@ == before.push(entry));
            assert(self.queue_view() =~= seq![entry@]);
        }

        let ghost ext = self.queue_view();
        let front_seq = self.queue[0].seq;
        assert(front_seq == ext[0].seq);
        proof {
            if q.len() > 0 {
                assert(ext[0] == q[0]);
            }
        }
        assert(seq - front_seq < self.queue.len());
        let idx = (seq - front_seq) as usize;
        let ghost before_remove = self.queue@;
        let slot = self.queue.remove(idx);
        let consumed = match slot {
            Some(entry) => entry.consumed,
            None => SampleDuration(0),
        };
        assert(consumed.0 == ext[idx as int].consumed);
        let entry = QueueEntry { seq, pts, consumed, packet: Some(packet) };
        let ghost placed = entry@;
        self.queue.insert(idx, entry);
        assert(self.queue@ =~= before_remove.update(idx as int, entry));
        assert(self.queue_view() =~= ext.update(idx as int, placed));
        assert(self.queue_view() =~= placed_queue(q, seq, pts, pv));
        proof {
            lemma_placed_queue_wf(q, seq, pts, pv);
            assert(ext.len() == before_remove.len());
            assert(self.queue@[0].seq == self.queue_view()[0].seq);
            assert(self.queue@[idx as int] == entry);
            assert forall|i: int| 0 <= i < q0.len() && q0[i].seq != seq implies #[trigger]
                self.queue@[i] == q0[i] by {
                assert(before_remove.subrange(0, q0.len() as int)[i] == before_remove[i]);
                assert(q0[i]@.seq == q[i].seq);
                assert(ext[i] == q[i]);
                assert(i != idx);
            }
        }
    }
}

/// Putting a packet into a well formed queue after its front keeps the
/// queue well formed.
proof fn lemma_placed_queue_wf(q: Seq<EntryView>, seq: u64, pts: Option<Timestamp>, packet: AudioPacketView)
    requires
        queue_wf(q),
        packet.buffer.len() == SAMPLES_PER_PACKET,
        q.len() > 0 ==> q[0].seq < seq,
    ensures
        queue_wf(placed_queue(q, seq, pts, packet)),
{
    let r = placed_queue(q, seq, pts, packet);
    if q.len() > 0 {
        assert(q[q.len() - 1].seq == q[0].seq + q.len() - 1);
        assert(r[0].seq == q[0].seq);
    }
    assert forall|i: int| 0 <= i < r.len() implies #[trigger] r[i].seq == r[0].seq + i by {
        if q.len() > 0 {
            assert(r[0].seq == q[0].seq);
        }
    }
}


/// A well formed queue has well formed slots.
proof fn lemma_queue_entries_wf(q: Seq<EntryView>)
    requires
        queue_wf(q),
    ensures
        entries_wf(q),
{
    assert forall|i: int| 0 <= i < q.len() implies {
        &&& #[trigger] q[i].consumed < FRAMES_PER_PACKET
        &&& (q[i].packet matches Some(p) ==> p.buffer.len() == SAMPLES_PER_PACKET)
    } by {
        assert(q[i] == q[i]);
    }
}

/// Playing from a well formed queue never moves its front back: what is
/// left starts no earlier.
proof fn lemma_consume_front(q: Seq<EntryView>, f: int)
    requires
        queue_wf(q),
    ensures
        consume_frames(q, f).len() > 0 ==> q.len() > 0 && consume_frames(q, f)[0].seq >= q[0].seq,
    decreases q.len(),
{
    if q.len() > 0 && f > 0 && f >= frames_left(q[0]) {
        lemma_queue_wf_tail(q);
        lemma_consume_front(q.drop_first(), f - frames_left(q[0]));
        if q.drop_first().len() > 0 {
            assert(q.drop_first()[0].seq == q[1].seq);
        }
    }
}

/// Lining up with a well formed queue never moves its front back.
proof fn lemma_sync_front(q: Seq<EntryView>, pts: u64, frames: int)
    requires
        queue_wf(q),
    ensures
        sync_queue(q, pts, frames).0.len() > 0 ==> q.len() > 0 && sync_queue(q, pts, frames).0[0].seq
            >= q[0].seq,
    decreases q.len(),
{
    if q.len() > 0 {
        lemma_queue_wf_tail(q);
        lemma_sync_front(q.drop_first(), pts, frames);
        if q.drop_first().len() > 0 {
            assert(q.drop_first()[0].seq == q[1].seq);
        }
    }
}

/// Dropping the front slot of a well formed queue keeps it well formed.
proof fn lemma_queue_wf_tail(q: Seq<EntryView>)
    requires
        queue_wf(q),
        q.len() > 0,
    ensures
        queue_wf(q.drop_first()),
{
    let t = q.drop_first();
    assert forall|i: int| 0 <= i < t.len() implies #[trigger] t[i].seq == t[0].seq + i by {
        assert(t[i] == q[i + 1]);
        assert(t[0] == q[1]);
    }
    assert forall|i: int| 0 <= i < t.len() implies {
        &&& #[trigger] t[i].consumed < FRAMES_PER_PACKET
        &&& (t[i].packet matches Some(p) ==> p.buffer.len() == SAMPLES_PER_PACKET)
    } by {
        assert(t[i] == q[i + 1]);
    }
}

/// The view of a queue after its front is popped.
proof fn lemma_pop_front_view(before: Seq<QueueEntry>, after: Seq<QueueEntry>)
    requires
        before.len() > 0,
        after == before.subrange(1, before.len() as int),
    ensures
        entries_view(after) =~= entries_view(before).drop_first(),
{
}

/// Writes silence over `data[from..to]`.
fn fill_silence(data: &mut Vec<u32>, from: usize, to: usize)
    requires
        from <= to <= old(data)@.len(),
    ensures
        final(data)@.len() == old(data)@.len(),
        final(data)@.subrange(0, from as int) == old(data)@.subrange(0, from as int),
        forall|i: int| 0 <= i < from ==> final(data)@[i] == old(data)@[i],
        final(data)@.subrange(from as int, to as int) == silence(to - from),
        final(data)@.subrange(to as int, final(data)@.len() as int) == old(data)@.subrange(
            to as int,
            old(data)@.len() as int,
        ),
{
    let mut k = from;
    while k < to
        invariant
            from <= k <= to,
            to <= data@.len(),
            data@.len() == old(data)@.len(),
            forall|i: int| 0 <= i < from ==> data@[i] == old(data)@[i],
            forall|i: int| from <= i < k ==> data@[i] == 0u32,
            forall|i: int| to <= i < data@.len() ==> data@[i] == old(data)@[i],
        decreases to - k,
    {
        data.set(k, 0u32);
        k += 1;
    }
    assert(data@.subrange(0, from as int) =~= old(data)@.subrange(0, from as int));
    assert(data@.subrange(from as int, to as int) =~= silence(to - from));
    assert(data@.subrange(to as int, data@.len() as int) =~= old(data)@.subrange(
        to as int,
        old(data)@.len() as int,
    ));
}

/// Lines the output, asking for `frames` frames due from `pts`, up with the
/// queue (see `sync_queue`): `None` for silence, or the number of silent
/// frames that precede the queue's audio.
fn seek_stream(queue: &mut std::collections::VecDeque<QueueEntry>, pts: Timestamp, frames: u64) -> (r: Option<u64>)
    requires
        queue_wf(entries_view(old(queue)@)),
    ensures
        queue_wf(entries_view(final(queue)@)),
        ({
            let (q1, outcome) = sync_queue(entries_view(old(queue)@), pts.0, frames as int);
            &&& entries_view(final(queue)@) == q1
            &&& match outcome {
                SyncOutcome::Silence => r is None,
                SyncOutcome::Synced(z) => r == Some(z as u64),
            }
        }),
{
    let ghost target = sync_queue(entries_view(queue@), pts.0, frames as int);

    // skip the slots that are late by a whole packet or more
    let mut skipping = true;
    while skipping
        invariant
            queue_wf(entries_view(queue@)),
            sync_queue(entries_view(queue@), pts.0, frames as int) == target,
            !skipping ==> queue@.len() == 0 || match queue@[0].pts {
                Some(p) => !(pts.0 > p.0 && pts.0 - p.0 >= FRAMES_PER_PACKET),
                None => true,
            },
        decreases queue@.len() + if skipping { 1int } else { 0int },
    {
        let ghost q = entries_view(queue@);
        if queue.len() == 0 {
            skipping = false;
        } else {
            let late_by_packet = match queue[0].pts {
                Some(p) => pts.0 > p.0 && pts.0 - p.0 >= FRAMES_PER_PACKET as u64,
                None => false,
            };
            if late_by_packet {
                let ghost before = queue@;
                queue.pop_front();
                proof {
                    lemma_pop_front_view(before, queue@);
                    lemma_queue_wf_tail(q);
                    assert(sync_queue(q, pts.0, frames as int) == sync_queue(
                        q.drop_first(),
                        pts.0,
                        frames as int,
                    ));
                }
            } else {
                skipping = false;
            }
        }
    }

    let ghost q = entries_view(queue@);
    if queue.len() == 0 {
        // nothing at the front of the queue
        assert(sync_queue(q, pts.0, frames as int) == (q, SyncOutcome::Silence));
        return None;
    }
    assert(queue@[0]@ == q[0]);
    match queue[0].pts {
        None => {
            // no due time for the front yet: drop it, and stay silent
            let ghost before = queue@;
            queue.pop_front();
            proof {
                lemma_pop_front_view(before, queue@);
                lemma_queue_wf_tail(q);
                assert(sync_queue(q, pts.0, frames as int) == (q.drop_first(), SyncOutcome::Silence));
            }
            None
        },
        Some(front_pts) => {
            if pts.0 > front_pts.0 {
                // the front has begun: play it from the frame now due
                let late = pts.0 - front_pts.0;
                let ghost before = queue@;
                let mut front = match queue.pop_front() {
                    Some(front) => front,
                    None => { return None; },
                };
                front.consumed = SampleDuration(late);
                queue.push_front(front);
                proof {
                    assert(queue@ =~= before.update(0, front));
                    let u = q.update(0, EntryView { consumed: late as u64, ..q[0] });
                    assert(entries_view(queue@) =~= u);
                    assert forall|i: int| 0 <= i < u.len() implies #[trigger] u[i].seq == u[0].seq + i by {
                        assert(q[i].seq == q[0].seq + i);
                    }
                    assert forall|i: int| 0 <= i < u.len() implies {
                        &&& #[trigger] u[i].consumed < FRAMES_PER_PACKET
                        &&& (u[i].packet matches Some(p) ==> p.buffer.len() == SAMPLES_PER_PACKET)
                    } by {
                        assert(q[i] == q[i]);
                    }
                    assert(sync_queue(q, pts.0, frames as int) == (u, SyncOutcome::Synced(0)));
                }
                Some(0)
            } else {
                let early = front_pts.0 - pts.0;
                if early >= frames {
                    // due after this output ends: stay silent
                    assert(sync_queue(q, pts.0, frames as int) == (q, SyncOutcome::Silence));
                    None
                } else {
                    // due within this output: silence up to it
                    assert(sync_queue(q, pts.0, frames as int) == (
                        q,
                        SyncOutcome::Synced(early as nat),
                    ));
                    Some(early)
                }
            }
        },
    }
}

/// The frames still queued, in total (`u64::MAX` if more).
fn queue_buffer_length(queue: &std::collections::VecDeque<QueueEntry>) -> (r: u64)
    requires
        queue_wf(entries_view(queue@)),
    ensures
        r == if queued_frames(entries_view(queue@)) <= u64::MAX {
            queued_frames(entries_view(queue@))
        } else {
            u64::MAX as int
        },
{
    let ghost q = entries_view(queue@);
    let mut total: u128 = 0;
    let len = queue.len();
    let mut k: usize = len;
    proof {
        lemma_queue_entries_wf(q);
        assert(q.subrange(k as int, q.len() as int) =~= Seq::<EntryView>::empty());
    }
    while k > 0
        invariant
            k <= len,
            len == q.len(),
            q.len() == queue@.len(),
            q == entries_view(queue@),
            entries_wf(q),
            total == queued_frames(q.subrange(k as int, q.len() as int)),
            total <= FRAMES_PER_PACKET * (len - k),
        decreases k,
    {
        k -= 1;
        let left = FRAMES_PER_PACKET as u64 - queue[k as usize].consumed.0;
        proof {
            let rest = q.subrange(k as int, q.len() as int);
            assert(rest[0] == q[k as int]);
            assert(rest.drop_first() =~= q.subrange(k + 1, q.len() as int));
            assert(q[k as int].consumed < FRAMES_PER_PACKET);
        }
        total = total + left as u128;
    }
    assert(q.subrange(0, q.len() as int) =~= q);
    if total > u64::MAX as u128 {
        u64::MAX
    } else {
        total as u64
    }
}

/// Plays from the queue into `data[start..]`: the queue's pending samples
/// in order, then silence if the queue runs out. Returns whether it ran
/// out and, if it did not, the stream position reached (see
/// `play_position`).
fn play_queue(
    queue: &mut std::collections::VecDeque<QueueEntry>,
    data: &mut Vec<u32>,
    start: usize,
) -> (r: (bool, Option<Timestamp>))
    requires
        queue_wf(entries_view(old(queue)@)),
        start <= old(data)@.len(),
        (old(data)@.len() - start) % 2 == 0,
    ensures
        ({
            let q = entries_view(old(queue)@);
            let n = old(data)@.len() as int;
            let frames = (n - start) / 2;
            &&& final(data)@.len() == n
            &&& final(data)@.subrange(0, start as int) == old(data)@.subrange(0, start as int)
            &&& queue_wf(entries_view(final(queue)@))
            &&& if queued_frames(q) < frames {
                &&& r.0
                &&& final(data)@.subrange(start as int, n) == pending_samples(q) + silence(
                    2 * (frames - queued_frames(q)),
                )
                &&& final(queue)@.len() == 0
            } else {
                &&& !r.0
                &&& final(data)@.subrange(start as int, n) == pending_samples(q).take(2 * frames)
                &&& entries_view(final(queue)@) == consume_frames(q, frames)
                &&& r.1 == (if frames == 0 {
                    None::<Timestamp>
                } else {
                    play_position(q, frames)
                })
            }
        }),
{
    let ghost q = entries_view(queue@);
    let ghost orig = data@;
    let n = data.len();
    let mut pos = start;
    let ghost mut done: int = 0;
    let mut stream_ts: Option<Timestamp> = None;
    let mut exhausted = false;
    proof {
        lemma_queue_entries_wf(q);
        lemma_pending_len_wf(q);
        assert(consume_frames(q, 0) == q);
    }

    while pos < n
        invariant
            start <= pos <= n,
            n == orig.len(),
            (n - pos) % 2 == 0,
            0 <= done <= queued_frames(q),
            entries_wf(q),
            pending_samples(q).len() == 2 * queued_frames(q),
            data@.len() == n,
            data@.subrange(0, start as int) == orig.subrange(0, start as int),
            queue_wf(entries_view(queue@)),
            exhausted ==> {
                &&& pos == n
                &&& queued_frames(q) < (n - start) / 2
                &&& data@.subrange(start as int, n as int) == pending_samples(q) + silence(
                    2 * ((n - start) / 2 - queued_frames(q)),
                )
                &&& queue@.len() == 0
            },
            !exhausted ==> {
                &&& pos == start + 2 * done
                &&& data@.subrange(start as int, pos as int) == pending_samples(q).take(2 * done)
                &&& entries_view(queue@) == consume_frames(q, done)
            },
            !exhausted ==> stream_ts == (if done == 0 {
                None::<Timestamp>
            } else {
                play_position(q, done)
            }),
        decreases n - pos,
    {
        let ghost cur = entries_view(queue@);
        proof {
            crate::playback::lemma_consume(q, done);
        }
        if queue.len() == 0 {
            // the queue ran out: silence for the rest
            let ghost before = data@;
            fill_silence(data, pos, n);
            proof {
                assert(queued_frames(cur) == 0);
                assert(done == queued_frames(q));
                assert(pending_samples(q).take(2 * done) =~= pending_samples(q));
                assert(data@.subrange(start as int, pos as int) =~= before.subrange(start as int, pos as int));
                assert(data@.subrange(start as int, n as int) =~= data@.subrange(start as int, pos as int)
                    + data@.subrange(pos as int, n as int));
                assert(data@.subrange(0, start as int) =~= before.subrange(0, start as int));
                lemma_pending_len_wf(q);
                assert(data@.subrange(pos as int, n as int) == silence(n - pos));
                assert(n - pos == 2 * ((n - start) / 2 - queued_frames(q)));
                assert(queue@.len() == 0);
            }
            pos = n;
            exhausted = true;
        } else {

        let ghost before_pop = queue@;
        let mut front = match queue.pop_front() {
            Some(front) => front,
            None => { return (true, None); },
        };
        let ghost e = cur[0];
        assert(front@ == e);
        proof {
            lemma_pop_front_view(before_pop, queue@);
            lemma_queue_wf_tail(cur);
            assert(e.consumed < FRAMES_PER_PACKET);
        }

        let out_frames = (n - pos) / 2;
        let left = FRAMES_PER_PACKET - front.consumed.0 as usize;
        let count = if out_frames < left { out_frames } else { left };
        let offset = 2 * front.consumed.0 as usize;

        // copy 2 * count samples
        let ghost data_before = data@;
        let mut j: usize = 0;
        while j < 2 * count
            invariant
                j <= 2 * count,
                count <= left,
                left == frames_left(e),
                offset == 2 * e.consumed,
                pos + 2 * count <= n,
                front@ == e,
                e.packet matches Some(p) ==> p.buffer.len() == SAMPLES_PER_PACKET,
                data@.len() == n,
                forall|i: int| 0 <= i < pos ==> data@[i] == data_before[i],
                forall|i: int| 0 <= i < j ==> data@[pos + i] == entry_pending(e)[i],
            decreases 2 * count - j,
        {
            let sample = match &front.packet {
                Some(packet) => packet.buffer.0[offset + j],
                None => 0u32,
            };
            data.set(pos + j, sample);
            j += 1;
        }

        let consumed = front.consumed.0 + count as u64;
        stream_ts = match front.pts {
            Some(p) => if p.0 <= u64::MAX - consumed {
                Some(Timestamp(p.0 + consumed))
            } else {
                None
            },
            None => None,
        };

        let ghost after_copy = data@;
        let ghost rest_queue = queue@;
        if count < left {
            front.consumed = SampleDuration(consumed);
            queue.push_front(front);
        }

        proof {
            let c = count as int;
            let next = consume_frames(cur, c);
            crate::playback::lemma_consume_compose(q, done, c);
            crate::playback::lemma_position_compose(q, done, c);
            crate::playback::lemma_consume(q, done);
            // the queue is the current one with `count` frames played
            if c < frames_left(e) {
                assert(next == cur.update(0, EntryView { consumed: (e.consumed + c) as u64, ..e }));
                assert(queue@ =~= seq![front].add(rest_queue));
                assert(entries_view(queue@) =~= next);
                assert forall|i: int| 0 <= i < next.len() implies #[trigger] next[i].seq == next[0].seq + i by {
                    assert(cur[i].seq == cur[0].seq + i);
                }
                assert forall|i: int| 0 <= i < next.len() implies {
                    &&& #[trigger] next[i].consumed < FRAMES_PER_PACKET
                    &&& (next[i].packet matches Some(p) ==> p.buffer.len() == SAMPLES_PER_PACKET)
                } by {
                    assert(cur[i] == cur[i]);
                }
            } else {
                assert(next == consume_frames(cur.drop_first(), 0));
                assert(entries_view(queue@) =~= next);
            }
            // the copied samples are the next pending ones
            let p_all = pending_samples(q);
            assert(pending_samples(cur) == p_all.skip(2 * done));
            assert(pending_samples(cur) == entry_pending(e) + pending_samples(cur.drop_first()));
            assert(data@.subrange(start as int, pos + 2 * c) =~= p_all.take(2 * (done + c))) by {
                assert forall|i: int| start <= i < pos + 2 * c implies data@[i] == p_all[i - start] by {
                    if i < pos {
                        assert(data@[i] == data_before[i]);
                        assert(data_before.subrange(start as int, pos as int)[i - start] == data_before[i]);
                    } else {
                        assert(data@[i] == entry_pending(e)[i - pos]);
                        assert(pending_samples(cur)[i - pos] == entry_pending(e)[i - pos]);
                        assert(p_all.skip(2 * done)[i - pos] == p_all[i - pos + 2 * done]);
                    }
                }
            }
            assert(data@.subrange(0, start as int) =~= orig.subrange(0, start as int)) by {
                assert forall|i: int| 0 <= i < start implies data@[i] == orig[i] by {
                    assert(data@[i] == data_before[i]);
                    assert(data_before.subrange(0, start as int)[i] == data_before[i]);
                }
            }
            // the position reached
            assert(play_position(cur, c) == stream_ts);
            done = done + c;
        }
        pos = pos + 2 * count;
        }
    }
    if exhausted {
        return (true, None);
    }
    proof {
        assert(pos == n);
    }
    (false, stream_ts)
}

/// The pending samples of a well formed queue are twice its frames.
proof fn lemma_pending_len_wf(q: Seq<EntryView>)
    requires
        entries_wf(q),
    ensures
        pending_samples(q).len() == 2 * queued_frames(q),
        queued_frames(q) >= 0,
{
    crate::playback::lemma_pending_len(q);
}


/// The status once a synced output has played `frames` frames from the
/// queue `q1`: the stream position reached, if known, decides the slew and
/// the audio latency against the output's `real` time; the buffer length
/// is what the queue `q2` still holds.
pub open spec fn status_after_play(
    st: Status,
    slewing: bool,
    played_at: Timestamp,
    q1: Seq<EntryView>,
    q2: Seq<EntryView>,
    frames: int,
) -> Status {
    let buffered = if queued_frames(q2) <= u64::MAX {
        queued_frames(q2)
    } else {
        u64::MAX as int
    };
    let st2 = match (if frames == 0 { None } else { play_position(q1, frames) }) {
        Some(ts) => {
            let slew = rate_decision(slewing, timing_offset(Timing { real: played_at, play: ts })).0;
            Status {
                stream: if slew { StreamStatus::Slew } else { StreamStatus::Sync },
                audio_latency: Some(LatencySample { request_pts: played_at, packet_pts: ts }),
                ..st
            }
        },
        None => st,
    };
    Status { buffer_length: Some(SampleDuration(buffered as u64)), ..st2 }
}

impl Receiver {
    /// `after`, `out` and `r` are this receiver, the output and the rate
    /// once the output, of `n` samples due from `pts`, has been filled.
    ///
    /// With no stream the output is silent. A receiver out of sync first
    /// lines up with its queue (see `sync_queue`); while nothing lines up
    /// the output is silent. Once in sync, the output plays the queue's
    /// pending samples in order after any leading silence (see
    /// `pending_samples`), and the queue is left with those frames played
    /// (see `consume_frames`). If the queue runs out, the rest is silence,
    /// the queue is empty and the status is a miss. Otherwise the stream
    /// position reached sets the rate to play at next (see
    /// `rate_decision`), which is returned, and the status (see
    /// `status_after_play`).
    pub open spec fn filled(
        &self,
        after: &Receiver,
        n: nat,
        out: Seq<u32>,
        pts: Timestamp,
        r: Option<SampleRate>,
    ) -> bool {
        let q = self.queue_view();
        let played_at = Timestamp((pts.0 + n / 2) as u64);
        &&& after.wf()
        &&& after.opt == self.opt
        &&& out.len() == n
        &&& match self.stream {
            None => {
                &&& out == silence(n as int)
                &&& after.stream == self.stream
                &&& after.stats == self.stats
                &&& after.queue_view() == q
                &&& r is None
            },
            Some(s) => {
                let (q1, outcome) = if s.sync {
                    (q, SyncOutcome::Synced(0))
                } else {
                    sync_queue(q, pts.0, n as int / 2)
                };
                match outcome {
                    SyncOutcome::Silence => {
                        &&& out == silence(n as int)
                        &&& after.stream == self.stream
                        &&& after.stats == self.stats
                        &&& after.queue_view() == q1
                        &&& r is None
                    },
                    SyncOutcome::Synced(z) => {
                        let start = 2 * z as int;
                        let frames = n as int / 2 - z;
                        let st1 = if s.sync {
                            self.stats
                        } else {
                            Status { stream: StreamStatus::Sync, ..self.stats }
                        };
                        &&& out.subrange(0, start) == silence(start)
                        &&& after.stream matches Some(t) && {
                            &&& t.sid == s.sid
                            &&& t.start_seq == s.start_seq
                            &&& t.sync
                            &&& t.latency == s.latency
                            &&& t.clock_delta == s.clock_delta
                            &&& if queued_frames(q1) < frames {
                                &&& out.subrange(start, n as int) == pending_samples(q1) + silence(
                                    2 * (frames - queued_frames(q1)),
                                )
                                &&& after.queue_view().len() == 0
                                &&& after.stats == Status { stream: StreamStatus::Miss, ..st1 }
                                &&& t.rate_adjust == s.rate_adjust
                                &&& r is None
                            } else {
                                let q2 = consume_frames(q1, frames);
                                &&& out.subrange(start, n as int) == pending_samples(q1).take(2 * frames)
                                &&& after.queue_view() == q2
                                &&& after.stats == status_after_play(
                                    st1,
                                    s.rate_adjust.slew,
                                    played_at,
                                    q1,
                                    q2,
                                    frames,
                                )
                                &&& match (if frames == 0 {
                                    None
                                } else {
                                    play_position(q1, frames)
                                }) {
                                    Some(ts) => {
                                        let decision = rate_decision(
                                            s.rate_adjust.slew,
                                            timing_offset(Timing { real: played_at, play: ts }),
                                        );
                                        &&& t.rate_adjust.slew == decision.0
                                        &&& r == Some(
                                            SampleRate(
                                                match decision.1 {
                                                    Some(rate) => rate as u32,
                                                    None => SAMPLE_RATE,
                                                },
                                            ),
                                        )
                                    },
                                    None => {
                                        &&& t.rate_adjust == s.rate_adjust
                                        &&& r is None
                                    },
                                }
                            }
                        }
                    },
                }
            },
        }
    }

    /// Fills the output `data`, whose first frame is due at `pts` on the
    /// receiver's clock, with the stream's audio (see `filled`), and
    /// returns the rate the stream should be resampled at from here on, if
    /// it is known. The output holds whole frames.
    pub fn fill_stream_buffer(&mut self, data: &mut Vec<u32>, pts: Timestamp) -> (r: Option<SampleRate>)
        requires
            old(self).wf(),
            old(data)@.len() % 2 == 0,
            pts.0 + old(data)@.len() / 2 <= u64::MAX,
        ensures
            old(self).filled(&*final(self), old(data)@.len(), final(data)@, pts, r),
    {
        let n = data.len();
        let ghost q = self.queue_view();
        let ghost stats0 = self.stats;

        let mut stream = match self.stream.take() {
            Some(stream) => stream,
            None => {
                // stream hasn't started, just fill buffer with silence
                fill_silence(data, 0, n);
                assert(data@ =~= data@.subrange(0, n as int));
                return None;
            },
        };
        let ghost s = stream;

        let real_ts_after_fill = pts.add(SampleDuration::from_buffer_offset(n));
        let frames = (n / 2) as u64;

        // sync up to the stream if necessary
        let mut start: usize = 0;
        if !stream.sync {
            proof {
                crate::playback::lemma_sync_queue_bound(q, pts.0, frames as int);
            }
            proof {
                lemma_sync_front(q, pts.0, frames as int);
            }
            match seek_stream(&mut self.queue, pts, frames) {
                None => {
                    fill_silence(data, 0, n);
                    assert(data@ =~= data@.subrange(0, n as int));
                    self.stream = Some(stream);
                    return None;
                },
                Some(early) => {
                    let zero_count = (2 * early) as usize;
                    fill_silence(data, 0, zero_count);
                    start = zero_count;
                    stream.sync = true;
                    self.stats.set_stream(StreamStatus::Sync);
                },
            }
        }
        let ghost q1 = self.queue_view();
        let ghost st1 = self.stats;
        let ghost data1 = data@;
        assert(data1.subrange(0, start as int) =~= silence(start as int));

        let (exhausted, stream_ts) = play_queue(&mut self.queue, data, start);
        assert(data@.subrange(0, start as int) =~= silence(start as int));

        if exhausted {
            self.stats.set_stream(StreamStatus::Miss);
            self.stream = Some(stream);
            return None;
        }

        let mut rate: Option<SampleRate> = None;
        match stream_ts {
            Some(stream_ts) => {
                let timing = Timing { real: real_ts_after_fill, play: stream_ts };
                let new_rate = stream.rate_adjust.sample_rate(timing);
                if stream.rate_adjust.slew() {
                    self.stats.set_stream(StreamStatus::Slew);
                } else {
                    self.stats.set_stream(StreamStatus::Sync);
                }
                self.stats.record_audio_latency(real_ts_after_fill, stream_ts);
                rate = Some(new_rate);
            },
            None => {},
        }

        let buffered = queue_buffer_length(&self.queue);
        self.stats.record_buffer_length(SampleDuration(buffered));
        self.stream = Some(stream);
        proof {
            assert forall|f: int| consume_frames(q1, f).len() > 0 implies q1.len() > 0
                && #[trigger] consume_frames(q1, f)[0].seq >= q1[0].seq by {
                lemma_consume_front(q1, f);
            }
        }
        rate
    }

    /// A receiver not yet in sync whose front slot was due at `d`, less than
    /// a packet before the output's first frame is due at `pts`, starts
    /// playing that slot from the frame due at `pts`: sample `k` of the
    /// output is the slot's sample `2 * (pts - d) + k`, for as long as the
    /// slot lasts.
    pub proof fn lemma_sync_plays_from_due_frame(
        &self,
        after: &Receiver,
        n: nat,
        out: Seq<u32>,
        pts: Timestamp,
        r: Option<SampleRate>,
    )
        requires
            self.wf(),
            self.filled(after, n, out, pts, r),
            n % 2 == 0,
            self.stream matches Some(s) && !s.sync,
            self.queue@.len() > 0,
            self.queue@[0].pts matches Some(d) && d.0 < pts.0 < d.0 + FRAMES_PER_PACKET,
        ensures
            forall|k: int|
                0 <= k < n && k < SAMPLES_PER_PACKET - 2 * (pts.0 - self.queue@[0].pts.unwrap().0)
                    ==> #[trigger] out[k] == entry_samples(self.queue@[0]@)[2 * (pts.0
                    - self.queue@[0].pts.unwrap().0) + k],
    {
        let q = self.queue_view();
        assert(q[0] == self.queue@[0]@);
        let d = q[0].pts.unwrap().0;
        let late = pts.0 - d;
        let frames = n as int / 2;
        let q1 = q.update(0, EntryView { consumed: late as u64, ..q[0] });
        assert(sync_queue(q, pts.0, frames) == (q1, SyncOutcome::Synced(0)));
        let e = q1[0];
        assert(entry_samples(e) == entry_samples(q[0]));
        assert(entry_samples(e).len() == SAMPLES_PER_PACKET);
        assert(pending_samples(q1) == entry_pending(e) + pending_samples(q1.drop_first()));
        assert(entry_pending(e).len() == SAMPLES_PER_PACKET - 2 * late);
        assert(out.len() == n);
        assert(2 * frames == n);
        let pend = pending_samples(q1);
        assert(pend.len() >= entry_pending(e).len());
        assert(entries_wf(q1)) by {
            assert forall|i: int| 0 <= i < q1.len() implies {
                &&& #[trigger] q1[i].consumed < FRAMES_PER_PACKET
                &&& (q1[i].packet matches Some(p) ==> p.buffer.len() == SAMPLES_PER_PACKET)
            } by {
                assert(q[i] == q[i]);
            }
        }
        crate::playback::lemma_pending_len(q1);
        if queued_frames(q1) < frames {
            assert(out.subrange(0, n as int) == pend + silence(2 * (frames - queued_frames(q1))));
        } else {
            assert(out.subrange(0, n as int) == pend.take(2 * frames));
        }
        assert forall|k: int|
            0 <= k < n && k < SAMPLES_PER_PACKET - 2 * late implies #[trigger] out[k]
                == entry_samples(q[0])[2 * late + k] by {
            assert(pend[k] == entry_pending(e)[k]);
            assert(out.subrange(0, n as int)[k] == out[k]);
            if queued_frames(q1) < frames {
                assert((pend + silence(2 * (frames - queued_frames(q1))))[k] == pend[k]);
            } else {
                assert(pend.take(2 * frames)[k] == pend[k]);
            }
        }
    }
}

} // verus!
