use vstd::prelude::*;

use crate::clock;
use crate::packet::AudioPacketView;
use crate::protocol::{
    AudioPacket, PacketBuffer, SessionId, TimestampMicros, FRAMES_PER_PACKET, MAGIC_AUDIO,
    SAMPLES_PER_PACKET,
};
use crate::time::{frames_to_micros, Timestamp};

verus! {

broadcast use vstd::seq_lib::group_seq_properties;

/// What places a full buffer of audio in its stream.
#[derive(Debug, Clone, Copy, PartialEq, Eq)]
pub struct StreamHeader {
    /// The stream the buffer belongs to.
    pub sid: SessionId,
    /// Its sequence number within the stream.
    pub seq: u64,
    /// When its first frame is to be played.
    pub pts: Timestamp,
}

/// A full packet's worth of interleaved samples, with its header.
#[derive(Debug, Clone, PartialEq, Eq)]
pub struct FullBuffer {
    pub header: StreamHeader,
    pub samples: Vec<u32>,
}

/// The audio packet that carries `samples` under `header` in raw 32-bit
/// float encoding, sent at `dts` microseconds.
pub open spec fn f32_packet(header: StreamHeader, samples: Seq<u32>, dts: u64) -> AudioPacketView {
    AudioPacketView {
        magic: MAGIC_AUDIO,
        flags: 0,
        sid: header.sid.0,
        seq: header.seq,
        pts: frames_to_micros(header.pts.0 as int) as u64,
        dts: dts,
        buffer: samples,
    }
}

/// The raw 32-bit float encoding of audio packets.
#[derive(Debug, Clone, Copy, PartialEq, Eq)]
pub struct F32;

impl F32 {
    /// The packet carrying `data` under `header`, sent at `dts`.
    pub fn encode_at(&self, header: &StreamHeader, data: &[u32], dts: TimestampMicros) -> (r:
        AudioPacket)
        requires
            data@.len() == SAMPLES_PER_PACKET,
            frames_to_micros(header.pts.0 as int) <= u64::MAX,
        ensures
            r@ == f32_packet(*header, data@, dts.0),
    {
        let pts = header.pts.to_micros_lossy();
        AudioPacket {
            magic: MAGIC_AUDIO,
            flags: 0,
            sid: header.sid,
            seq: header.seq,
            pts: pts,
            dts: dts,
            buffer: PacketBuffer(vstd::slice::slice_to_vec(data)),
        }
    }

    /// The packet carrying `data` under `header`, stamped with the real time
    /// clock as its send time, or `None` when the clock cannot be read.
    pub fn encode(&self, header: &StreamHeader, data: &[u32]) -> (r: Option<AudioPacket>)
        requires
            data@.len() == SAMPLES_PER_PACKET,
            frames_to_micros(header.pts.0 as int) <= u64::MAX,
        ensures
            r matches Some(p) ==> p@ == f32_packet(*header, data@, p.dts.0),
    {
        match clock::now() {
            Some(dts) => Some(self.encode_at(header, data, dts)),
            None => None,
        }
    }
}

/// The abstract state of an encoder: the stream it encodes, the sequence
/// number of its next packet, and the frames buffered towards that packet
/// with the timestamp of the first of them.
pub struct EncodeView {
    pub sid: SessionId,
    pub seq: u64,
    pub pts: Option<Timestamp>,
    pub pending: Seq<u32>,
}

/// Cuts a stream of interleaved samples into packets of `FRAMES_PER_PACKET`
/// frames, numbering them in order and stamping each with the timestamp of
/// its first frame.
pub struct Encode {
    codec: F32,
    buffer: Vec<u32>,
    pts: Option<Timestamp>,
    pos: usize,
    sid: SessionId,
    seq: u64,
}

impl View for Encode {
    type V = EncodeView;

    closed spec fn view(&self) -> EncodeView {
        EncodeView {
            sid: self.sid,
            seq: self.seq,
            pts: self.pts,
            pending: self.buffer@.subrange(0, 2 * self.pos as int),
        }
    }
}

/// The interleaved samples an encoder in state `v` has seen since its last
/// full packet, followed by `data`.
pub open spec fn encode_stream(v: EncodeView, data: Seq<u32>) -> Seq<u32> {
    v.pending + data
}

/// The timestamp of the first frame of the `i`th packet completed when
/// `data`, whose first frame is at `pts`, is written to an encoder in state
/// `v`.
pub open spec fn packet_pts(v: EncodeView, pts: u64, i: int) -> int {
    if i == 0 && v.pending.len() > 0 {
        v.pts.unwrap().0 as int
    } else {
        pts + i * (FRAMES_PER_PACKET as int) - v.pending.len() / 2
    }
}

/// The header of the `i`th packet completed when `data`, whose first frame
/// is at `pts`, is written to an encoder in state `v`.
pub open spec fn packet_header(v: EncodeView, pts: u64, i: int) -> StreamHeader {
    StreamHeader {
        sid: v.sid,
        seq: (v.seq + i) as u64,
        pts: Timestamp(packet_pts(v, pts, i) as u64),
    }
}

/// The `i`th full buffer completed when `data`, whose first frame is at
/// `pts`, is written to an encoder in state `v`.
pub open spec fn packet_samples(v: EncodeView, data: Seq<u32>, i: int) -> Seq<u32> {
    encode_stream(v, data).subrange(
        i * (SAMPLES_PER_PACKET as int),
        (i + 1) * (SAMPLES_PER_PACKET as int),
    )
}

/// Whether `n` full packets are completed when `total` samples have been
/// seen since the last packet.
pub open spec fn completes(total: int, n: int) -> bool {
    n * (SAMPLES_PER_PACKET as int) <= total < (n + 1) * (SAMPLES_PER_PACKET as int)
}

/// Whether `p` is the packet that encodes one of the first `n` packets'
/// worth of audio completed when `data`, whose first frame is at `pts`, is
/// written to an encoder in state `v`, whatever its send time.
pub open spec fn encodes_one_of(p: AudioPacketView, v: EncodeView, pts: u64, data: Seq<u32>, n: int) -> bool {
    exists|i: int|
        0 <= i < n && p == #[trigger] f32_packet(
            packet_header(v, pts, i),
            packet_samples(v, data, i),
            p.dts,
        )
}

impl Encode {
    /// Well-formedness: a full packet's buffer, fewer frames buffered than
    /// a packet holds, and a start timestamp exactly while frames are
    /// buffered.
    pub closed spec fn wf(&self) -> bool {
        &&& self.buffer@.len() == SAMPLES_PER_PACKET
        &&& self.pos < FRAMES_PER_PACKET
        &&& (self.pos == 0 <==> self.pts is None)
    }

    /// The state of a well-formed encoder is one it can be in between
    /// writes.
    pub proof fn lemma_view_wf(&self)
        requires
            self.wf(),
        ensures
            encode_view_wf(self@),
    {
    }

    /// A new encoder for the stream `sid`, numbering its packets from zero.
    pub fn new(sid: SessionId) -> (r: Encode)
        ensures
            r.wf(),
            r@.sid == sid,
            r@.seq == 0,
            r@.pts is None,
            r@.pending == Seq::<u32>::empty(),
    {
        let mut buffer: Vec<u32> = Vec::new();
        let mut i: usize = 0;
        while i < SAMPLES_PER_PACKET
            invariant
                i <= SAMPLES_PER_PACKET,
                buffer@.len() == i,
            decreases SAMPLES_PER_PACKET - i,
        {
            buffer.push(0);
            i = i + 1;
        }
        let r = Encode { codec: F32, buffer, pts: None, pos: 0, sid, seq: 0 };
        assert(r@.pending =~= Seq::<u32>::empty());
        r
    }

    /// The sequence number the next packet gets.
    pub fn next_seq(&self) -> (r: u64)
        ensures
            r == self@.seq,
    {
        self.seq
    }

    /// How many samples are buffered towards the next packet.
    pub fn buffered_samples(&self) -> (r: usize)
        requires
            self.wf(),
        ensures
            r == self@.pending.len(),
    {
        2 * self.pos
    }

    /// The timestamp of the first buffered frame, if any.
    pub fn start_pts(&self) -> (r: Option<Timestamp>)
        ensures
            r == self@.pts,
    {
        self.pts
    }

    /// Takes the full buffer out with its header, and starts the next one.
    fn send_full_buffer(&mut self) -> (r: FullBuffer)
        requires
            old(self).buffer@.len() == SAMPLES_PER_PACKET,
            old(self).pos == FRAMES_PER_PACKET,
            old(self).pts is Some,
            old(self).seq < u64::MAX,
        ensures
            final(self).wf(),
            final(self)@.sid == old(self).sid,
            final(self)@.seq == old(self).seq + 1,
            final(self)@.pts is None,
            final(self)@.pending == Seq::<u32>::empty(),
            final(self).buffer@ == old(self).buffer@,
            r.header == (StreamHeader {
                sid: old(self).sid,
                seq: old(self).seq,
                pts: old(self).pts.unwrap(),
            }),
            r.samples@ == old(self).buffer@,
    {
        let pts = self.pts.take().unwrap();
        self.pos = 0;

        let seq = self.seq;
        self.seq = self.seq + 1;

        let header = StreamHeader { sid: self.sid, seq, pts };
        let samples = vstd::slice::slice_to_vec(self.buffer.as_slice());
        proof {
            assert(self@.pending =~= Seq::<u32>::empty());
        }
        FullBuffer { header, samples }
    }

    /// Buffers as many frames of `data` from `off` on as the current packet
    /// has room for, taking `pts` as the start of the packet if it is the
    /// first frame of one; returns how many samples it took and the packet
    /// if that filled it.
    fn write_partial(&mut self, pts: Timestamp, data: &[u32], off: usize) -> (r: (usize, Option<
        FullBuffer,
    >))
        requires
            old(self).wf(),
            off < data@.len(),
            data@.len() % 2 == 0,
            off % 2 == 0,
            old(self)@.pending.len() + (data@.len() - off) >= SAMPLES_PER_PACKET ==> old(self).seq
                < u64::MAX,
        ensures
            final(self).wf(),
            r.0 > 0,
            r.0 % 2 == 0,
            off + r.0 <= data@.len(),
            final(self)@.sid == old(self)@.sid,
            ({
                let filled = old(self)@.pending + data@.subrange(off as int, off + r.0);
                let start = if old(self)@.pts is Some { old(self)@.pts.unwrap() } else { pts };
                if filled.len() == SAMPLES_PER_PACKET {
                    &&& r.1 matches Some(b) && b.header == (StreamHeader {
                        sid: old(self)@.sid,
                        seq: old(self)@.seq,
                        pts: start,
                    }) && b.samples@ == filled
                    &&& final(self)@.seq == old(self)@.seq + 1
                    &&& final(self)@.pending == Seq::<u32>::empty()
                    &&& final(self)@.pts is None
                } else {
                    &&& r.1 is None
                    &&& off + r.0 == data@.len()
                    &&& final(self)@.seq == old(self)@.seq
                    &&& final(self)@.pending == filled
                    &&& final(self)@.pts == Some(start)
                }
            }),
    {
        let remaining = SAMPLES_PER_PACKET - 2 * self.pos;
        let left = data.len() - off;
        let n = if remaining < left { remaining } else { left };
        let base = 2 * self.pos;
        let ghost pending = self@.pending;

        let mut j: usize = 0;
        while j < n
            invariant
                j <= n,
                n <= remaining,
                remaining == SAMPLES_PER_PACKET - base,
                base == 2 * self.pos,
                off + n <= data.len(),
                self.buffer@.len() == SAMPLES_PER_PACKET,
                self.pos < FRAMES_PER_PACKET,
                self.buffer@.subrange(0, base + j) == pending + data@.subrange(
                    off as int,
                    off + j,
                ),
                pending == old(self)@.pending,
                self.pos == old(self).pos,
                self.pts == old(self).pts,
                self.sid == old(self).sid,
                self.seq == old(self).seq,
            decreases n - j,
        {
            let ghost before = self.buffer@;
            self.buffer.set(base + j, data[off + j]);
            proof {
                assert(self.buffer@.subrange(0, base + j + 1) =~= before.subrange(0, base + j).push(
                    data@[off + j],
                ));
                assert(data@.subrange(off as int, off + j + 1) =~= data@.subrange(
                    off as int,
                    off + j,
                ).push(data@[off + j]));
            }
            j = j + 1;
        }

        if self.pos == 0 {
            self.pts = Some(pts);
        }
        self.pos = self.pos + n / 2;

        if self.pos == FRAMES_PER_PACKET {
            proof {
                assert(self.buffer@.subrange(0, SAMPLES_PER_PACKET as int) =~= self.buffer@);
            }
            let full = self.send_full_buffer();
            (n, Some(full))
        } else {
            (n, None)
        }
    }

    /// Buffers the interleaved samples `data`, whose first frame is to be
    /// played at `pts`, and returns each packet's worth of audio that this
    /// completes, in order. The packets are numbered consecutively from the
    /// encoder's next sequence number; each is stamped with the timestamp of
    /// its first frame; together with what stays buffered they hold exactly
    /// the samples buffered before followed by `data`.
    pub fn write_buffers(&mut self, pts: Timestamp, data: &[u32]) -> (r: Vec<FullBuffer>)
        requires
            old(self).wf(),
            data@.len() % 2 == 0,
            pts.0 + data@.len() / 2 <= u64::MAX,
            old(self)@.seq + (old(self)@.pending.len() + data@.len()) as int / (SAMPLES_PER_PACKET as int)
                <= u64::MAX,
        ensures
            final(self).wf(),
            completes((old(self)@.pending.len() + data@.len()) as int, r@.len() as int),
            forall|i: int|
                0 <= i < r@.len() ==> (#[trigger] r@[i]).header == packet_header(
                    old(self)@,
                    pts.0,
                    i,
                ) && r@[i].samples@ == packet_samples(old(self)@, data@, i),
            final(self)@.sid == old(self)@.sid,
            final(self)@.seq == old(self)@.seq + r@.len(),
            final(self)@.pending == encode_stream(old(self)@, data@).subrange(
                r@.len() * (SAMPLES_PER_PACKET as int),
                (old(self)@.pending.len() + data@.len()) as int,
            ),
            final(self)@.pts == (if final(self)@.pending.len() == 0 {
                None::<Timestamp>
            } else {
                Some(Timestamp(packet_pts(old(self)@, pts.0, r@.len() as int) as u64))
            }),
            final(self)@ == encoded_state(old(self)@, pts.0, data@),
            r@.map_values(|b: FullBuffer| (b.header, b.samples@)) == encoded_buffers(
                old(self)@,
                pts.0,
                data@,
            ),
    {
        let out = self.write_buffers_impl(pts, data);
        proof {
            let total = (old(self)@.pending.len() + data@.len()) as int;
            let n = out@.len() as int;
            assert(n == total / 320) by (nonlinear_arith)
                requires
                    n * 320 <= total < (n + 1) * 320,
            ;
            assert(self@ =~= encoded_state(old(self)@, pts.0, data@));
            assert(out@.map_values(|b: FullBuffer| (b.header, b.samples@)) =~= encoded_buffers(
                old(self)@,
                pts.0,
                data@,
            ));
        }
        out
    }

    fn write_buffers_impl(&mut self, pts: Timestamp, data: &[u32]) -> (r: Vec<FullBuffer>)
        requires
            old(self).wf(),
            data@.len() % 2 == 0,
            pts.0 + data@.len() / 2 <= u64::MAX,
            old(self)@.seq + (old(self)@.pending.len() + data@.len()) as int / (
            SAMPLES_PER_PACKET as int) <= u64::MAX,
        ensures
            final(self).wf(),
            completes((old(self)@.pending.len() + data@.len()) as int, r@.len() as int),
            forall|i: int|
                0 <= i < r@.len() ==> (#[trigger] r@[i]).header == packet_header(
                    old(self)@,
                    pts.0,
                    i,
                ) && r@[i].samples@ == packet_samples(old(self)@, data@, i),
            final(self)@.sid == old(self)@.sid,
            final(self)@.seq == old(self)@.seq + r@.len(),
            final(self)@.pending == encode_stream(old(self)@, data@).subrange(
                r@.len() * (SAMPLES_PER_PACKET as int),
                (old(self)@.pending.len() + data@.len()) as int,
            ),
            final(self)@.pts == (if final(self)@.pending.len() == 0 {
                None::<Timestamp>
            } else {
                Some(Timestamp(packet_pts(old(self)@, pts.0, r@.len() as int) as u64))
            }),
    {
        let ghost v0 = self@;
        let ghost stream = encode_stream(v0, data@);
        let ghost p0 = v0.pending.len() as int;
        let mut out: Vec<FullBuffer> = Vec::new();
        let mut off: usize = 0;
        let mut cur = pts;

        proof {
            assert(stream.subrange(0, p0) =~= v0.pending);
        }

        while off < data.len()
            invariant
                self.wf(),
                off <= data@.len(),
                off % 2 == 0,
                data@.len() % 2 == 0,
                pts.0 + data@.len() / 2 <= u64::MAX,
                v0.seq + (p0 + data@.len()) / (SAMPLES_PER_PACKET as int) <= u64::MAX,
                stream == encode_stream(v0, data@),
                p0 == v0.pending.len(),
                p0 % 2 == 0,
                cur.0 == pts.0 + off / 2,
                out@.len() * (SAMPLES_PER_PACKET as int) <= p0 + off,
                p0 + off < (out@.len() + 1) * (SAMPLES_PER_PACKET as int),
                self@.sid == v0.sid,
                self@.seq == v0.seq + out@.len(),
                self@.pending == stream.subrange(
                    out@.len() * (SAMPLES_PER_PACKET as int),
                    p0 + off,
                ),
                self@.pts == (if self@.pending.len() == 0 {
                    None::<Timestamp>
                } else {
                    Some(Timestamp(packet_pts(v0, pts.0, out@.len() as int) as u64))
                }),
                forall|i: int|
                    0 <= i < out@.len() ==> (#[trigger] out@[i]).header == packet_header(
                        v0,
                        pts.0,
                        i,
                    ) && out@[i].samples@ == packet_samples(v0, data@, i),
            decreases data@.len() - off,
        {
            let ghost k = out@.len() as int;
            let ghost before = self@;
            proof {
                if (k + 1) * 320 <= p0 + data@.len() {
                    assert(k + 1 <= (p0 + data@.len()) / 320) by (nonlinear_arith)
                        requires
                            (k + 1) * 320 <= p0 + data@.len(),
                    ;
                }
            }
            let (n, full) = self.write_partial(cur, data, off);
            let ghost start = if before.pts is Some { before.pts.unwrap() } else { cur };
            proof {
                let filled = before.pending + data@.subrange(off as int, off + n);
                assert(filled =~= stream.subrange(k * 320, p0 + off + n));
                if before.pts is None {
                    assert(before.pending.len() == 0);
                    assert(p0 + off == k * 320);
                    if k == 0 {
                        assert(p0 == 0);
                    }
                    assert(start.0 == packet_pts(v0, pts.0, k));
                } else {
                    assert(start == Timestamp(packet_pts(v0, pts.0, k) as u64));
                }
            }
            match full {
                Some(b) => {
                    proof {
                        assert(packet_samples(v0, data@, k) =~= stream.subrange(
                            k * 320,
                            (k + 1) * 320,
                        ));
                        assert(stream.subrange((k + 1) * 320, p0 + off + n) =~= Seq::<
                            u32,
                        >::empty());
                    }
                    out.push(b);
                },
                None => {},
            }
            off = off + n;
            cur = Timestamp(cur.0 + (n / 2) as u64);
        }
        out
    }

    /// Buffers the interleaved samples `data`, whose first frame is to be
    /// played at `pts`, and returns the audio packets to send for each
    /// packet's worth of audio this completes, in order, each stamped with
    /// the real time clock as its send time. A packet whose send time cannot
    /// be read is dropped; its sequence number is not reused.
    pub fn write(&mut self, pts: Timestamp, data: &[u32]) -> (r: Vec<AudioPacket>)
        requires
            old(self).wf(),
            write_admits(old(self)@, pts.0, data@.len() as int),
        ensures
            final(self).wf(),
            write_outcome(old(self)@, pts.0, data@, final(self)@, r@),
    {
        let ghost v0 = self@;
        let bufs = self.write_buffers(pts, data);
        let ghost n = bufs@.len() as int;
        proof {
            assert forall|i: int| 0 <= i < n implies 0 <= packet_pts(v0, pts.0, i) <= u64::MAX
                && frames_to_micros(packet_pts(v0, pts.0, i)) <= u64::MAX by {
                let t = packet_pts(v0, pts.0, i);
                let top = pts.0 + data@.len() / 2;
                if i == 0 && v0.pending.len() > 0 {
                } else {
                    assert(t <= top);
                    assert(0 <= t);
                    assert(t * 1_000_000 / 48000 <= top * 1_000_000 / 48000) by (nonlinear_arith)
                        requires
                            0 <= t <= top,
                    ;
                }
            }
        }
        let mut out: Vec<AudioPacket> = Vec::new();
        let mut i: usize = 0;
        while i < bufs.len()
            invariant
                i <= bufs@.len(),
                n == bufs@.len(),
                forall|k: int|
                    0 <= k < n ==> (#[trigger] bufs@[k]).header == packet_header(v0, pts.0, k)
                        && bufs@[k].samples@ == packet_samples(v0, data@, k),
                forall|k: int| 0 <= k < n ==> #[trigger] packet_samples(v0, data@, k).len() == SAMPLES_PER_PACKET,
                forall|k: int|
                    0 <= k < n ==> 0 <= #[trigger] packet_pts(v0, pts.0, k) <= u64::MAX
                        && frames_to_micros(packet_pts(v0, pts.0, k)) <= u64::MAX,
                v0.seq + n <= u64::MAX,
                forall|j: int|
                    0 <= j < out@.len() ==> encodes_one_of(
                        (#[trigger] out@[j])@,
                        v0,
                        pts.0,
                        data@,
                        i as int,
                    ),
                forall|j: int| 0 <= j < out@.len() ==> (#[trigger] out@[j]).seq < v0.seq + i,
                forall|j1: int, j2: int|
                    0 <= j1 < j2 < out@.len() ==> (#[trigger] out@[j1]).seq < (#[trigger] out@[
                        j2
                    ]).seq,
            decreases bufs@.len() - i,
        {
            let b = &bufs[i];
            proof {
                assert(packet_samples(v0, data@, i as int).len() == SAMPLES_PER_PACKET);
                assert(frames_to_micros(packet_pts(v0, pts.0, i as int)) <= u64::MAX);
            }
            match self.codec.encode(&b.header, b.samples.as_slice()) {
                Some(p) => {
                    proof {
                        assert(p@ == f32_packet(
                            packet_header(v0, pts.0, i as int),
                            packet_samples(v0, data@, i as int),
                            p@.dts,
                        ));
                    }
                    out.push(p);
                },
                None => {},
            }
            i = i + 1;
        }
        out
    }

    /// Writes `data`, whose first frame is to be played at `pts`, as
    /// `write` does, where the encoder can take it: whole frames whose
    /// timestamps, times in microseconds and packet sequence numbers all
    /// stay in range. Otherwise nothing is written and `None` comes back.
    pub fn try_write(&mut self, pts: Timestamp, data: &[u32]) -> (r: Option<Vec<AudioPacket>>)
        requires
            old(self).wf(),
        ensures
            final(self).wf(),
            r is Some <==> write_admits(old(self)@, pts.0, data@.len() as int),
            r is None ==> *final(self) == *old(self),
            r matches Some(out) ==> write_outcome(old(self)@, pts.0, data@, final(self)@, out@),
    {
        let len = data.len();
        if len % 2 != 0 {
            return None;
        }
        let frames = (len / 2) as u64;
        let last = match pts.0.checked_add(frames) {
            Some(l) => l,
            None => return None,
        };
        if !micros_fit(last) {
            return None;
        }
        match self.pts {
            Some(p) => {
                if !micros_fit(p.0) {
                    return None;
                }
            },
            None => {},
        }
        let packets = (self.buffered_samples() as u128 + len as u128) / (SAMPLES_PER_PACKET as u128);
        if self.seq as u128 + packets > u64::MAX as u128 {
            return None;
        }
        Some(self.write(pts, data))
    }
}

/// Whether `frames` frames last no more than `u64::MAX` microseconds.
fn micros_fit(frames: u64) -> (r: bool)
    ensures
        r == (frames_to_micros(frames as int) <= u64::MAX),
{
    (frames as u128 * 1_000_000) / 48000 <= u64::MAX as u128
}

/// Whether `len` interleaved samples whose first frame is at `pts` can be
/// written to an encoder in state `v`: they are whole frames, and the last
/// frame's timestamp, its time in microseconds, the time of the first
/// buffered frame and the sequence numbers of the packets completed all
/// stay in range.
pub open spec fn write_admits(v: EncodeView, pts: u64, len: int) -> bool {
    &&& len % 2 == 0
    &&& pts + len / 2 <= u64::MAX
    &&& v.seq + (v.pending.len() + len) / (SAMPLES_PER_PACKET as int) <= u64::MAX
    &&& frames_to_micros(pts + len / 2) <= u64::MAX
    &&& v.pts matches Some(p) ==> frames_to_micros(p.0 as int) <= u64::MAX
}

/// What writing `data`, whose first frame is at `pts`, to an encoder in
/// state `v` does: the encoder ends in state `after`, `n` packets having
/// been completed, and `out` holds packets of those completed, in
/// increasing sequence order.
pub open spec fn write_outcome(
    v: EncodeView,
    pts: u64,
    data: Seq<u32>,
    after: EncodeView,
    out: Seq<AudioPacket>,
) -> bool {
    &&& after == encoded_state(v, pts, data)
    &&& after.sid == v.sid
    &&& {
        let n = after.seq - v.seq;
        &&& 0 <= n
        &&& completes((v.pending.len() + data.len()) as int, n)
        &&& after.pending == encode_stream(v, data).subrange(
            n * (SAMPLES_PER_PACKET as int),
            (v.pending.len() + data.len()) as int,
        )
        &&& after.pts == (if after.pending.len() == 0 {
            None::<Timestamp>
        } else {
            Some(Timestamp(packet_pts(v, pts, n) as u64))
        })
        &&& forall|j: int|
            0 <= j < out.len() ==> encodes_one_of((#[trigger] out[j])@, v, pts, data, n)
    }
    &&& forall|j1: int, j2: int|
        0 <= j1 < j2 < out.len() ==> (#[trigger] out[j1]).seq < (#[trigger] out[j2]).seq
}

/// How many full packets writing `data` to an encoder in state `v`
/// completes.
pub open spec fn completed_count(v: EncodeView, data: Seq<u32>) -> int {
    (v.pending.len() + data.len()) as int / (SAMPLES_PER_PACKET as int)
}

/// The state of an encoder in state `v` once `data`, whose first frame is
/// at `pts`, has been written to it.
pub open spec fn encoded_state(v: EncodeView, pts: u64, data: Seq<u32>) -> EncodeView {
    let n = completed_count(v, data);
    let pending = encode_stream(v, data).subrange(
        n * (SAMPLES_PER_PACKET as int),
        (v.pending.len() + data.len()) as int,
    );
    EncodeView {
        sid: v.sid,
        seq: (v.seq + n) as u64,
        pts: if pending.len() == 0 {
            None
        } else {
            Some(Timestamp(packet_pts(v, pts, n) as u64))
        },
        pending: pending,
    }
}

/// The full buffers, with their headers, that writing `data`, whose first
/// frame is at `pts`, to an encoder in state `v` completes.
pub open spec fn encoded_buffers(v: EncodeView, pts: u64, data: Seq<u32>) -> Seq<
    (StreamHeader, Seq<u32>),
> {
    Seq::new(
        completed_count(v, data) as nat,
        |i: int| (packet_header(v, pts, i), packet_samples(v, data, i)),
    )
}

/// Whether `v` is a state an encoder can be in between writes.
pub open spec fn encode_view_wf(v: EncodeView) -> bool {
    &&& v.pending.len() % 2 == 0
    &&& v.pending.len() < SAMPLES_PER_PACKET
    &&& (v.pending.len() == 0 <==> v.pts is None)
}

/// Splitting a count of samples: the packets completed by `x` samples and
/// then by what is left of them with `y` more are those completed by
/// `x + y`.
proof fn lemma_completed_split(x: int, y: int)
    requires
        x >= 0,
        y >= 0,
    ensures
        x / 320 + (x - (x / 320) * 320 + y) / 320 == (x + y) / 320,
        0 <= x - (x / 320) * 320 < 320,
{
    let q1 = x / 320;
    let r1 = x - q1 * 320;
    assert(0 <= r1 < 320) by (nonlinear_arith)
        requires
            q1 == x / 320,
            r1 == x - q1 * 320,
            x >= 0,
    ;
    let q2 = (r1 + y) / 320;
    assert(q2 * 320 <= r1 + y < q2 * 320 + 320) by (nonlinear_arith)
        requires
            q2 == (r1 + y) / 320,
            r1 + y >= 0,
    ;
    assert((x + y) / 320 == q1 + q2) by (nonlinear_arith)
        requires
            q1 * 320 + r1 == x,
            q2 * 320 <= r1 + y < q2 * 320 + 320,
    ;
}

/// How the input is cut into writes does not matter: writing `a` and then
/// `b` (whose first frame follows the last of `a`) completes the same
/// packets, in the same order, and leaves the encoder in the same state as
/// writing `a` followed by `b` at once.
pub proof fn lemma_encode_split(v: EncodeView, pts: u64, a: Seq<u32>, b: Seq<u32>)
    requires
        encode_view_wf(v),
        a.len() % 2 == 0,
        b.len() % 2 == 0,
        pts + (a.len() + b.len()) / 2 <= u64::MAX,
        v.seq + completed_count(v, a + b) <= u64::MAX,
    ensures
        ({
            let v1 = encoded_state(v, pts, a);
            let pts1 = (pts + a.len() / 2) as u64;
            &&& encoded_buffers(v, pts, a) + encoded_buffers(v1, pts1, b) == encoded_buffers(
                v,
                pts,
                a + b,
            )
            &&& encoded_state(v1, pts1, b) == encoded_state(v, pts, a + b)
        }),
{
    let p = v.pending.len() as int;
    let la = a.len() as int;
    let lb = b.len() as int;
    let s = v.pending + (a + b);
    assert(encode_stream(v, a + b) == s);
    let v1 = encoded_state(v, pts, a);
    let pts1 = (pts + a.len() / 2) as u64;
    let n1 = completed_count(v, a);
    lemma_completed_split(p + la, lb);
    let p1 = p + la - n1 * 320;
    assert(v1.pending =~= s.subrange(n1 * 320, p + la));
    assert(v1.pending.len() == p1);
    let n2 = completed_count(v1, b);
    let n = completed_count(v, a + b);
    assert(n == n1 + n2);
    assert(encode_stream(v1, b) =~= s.subrange(n1 * 320, p + la + lb));
    assert(n1 * 320 <= p + la);
    assert(v.seq + n1 <= u64::MAX);

    // where each packet of the second write starts, in frames
    assert forall|j: int| 0 <= j <= n2 implies #[trigger] packet_pts(v1, pts1, j) == packet_pts(
        v,
        pts,
        n1 + j,
    ) by {
        if j == 0 && p1 > 0 {
            if n1 == 0 && p > 0 {
            } else {
                assert(n1 >= 1 || p == 0);
                assert(0 <= pts + n1 * 160 - p / 2 <= pts + la / 2);
            }
        } else {
            assert(pts1 == pts + la / 2);
            assert(p1 / 2 == p / 2 + la / 2 - n1 * 160);
        }
    }

    let lhs = encoded_buffers(v, pts, a) + encoded_buffers(v1, pts1, b);
    let rhs = encoded_buffers(v, pts, a + b);
    assert(lhs.len() == rhs.len());
    assert forall|i: int| 0 <= i < rhs.len() implies lhs[i] == rhs[i] by {
        if i < n1 {
            assert(packet_samples(v, a, i) =~= packet_samples(v, a + b, i));
        } else {
            let j = i - n1;
            assert(packet_samples(v1, b, j) =~= packet_samples(v, a + b, i));
            assert(packet_pts(v1, pts1, j) == packet_pts(v, pts, i));
            assert(packet_header(v1, pts1, j) == packet_header(v, pts, i));
        }
    }
    assert(lhs =~= rhs);

    let w1 = encoded_state(v1, pts1, b);
    let w = encoded_state(v, pts, a + b);
    assert(w1.pending =~= w.pending);
    assert(packet_pts(v1, pts1, n2) == packet_pts(v, pts, n));
}

} // verus!
