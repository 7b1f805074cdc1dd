use vstd::prelude::*;
use vstd::bytes::*;

use crate::protocol::{
    AudioPacket, ReceiverId, SessionId, StatsReplyFlags, StatsReplyPacket, StatsRequestPacket,
    TimePacket, TimestampMicros, PacketBuffer, MAGIC_AUDIO, MAGIC_STATS_REPLY, MAGIC_STATS_REQ,
    MAGIC_TIME, SAMPLES_PER_PACKET,
};

verus! {

broadcast use vstd::seq_lib::group_seq_properties;

/// Size on the wire of an audio packet, and of a time packet, which is
/// padded to the same size so that both see the same network delay.
pub const AUDIO_PACKET_SIZE: usize = 1320;

/// Size on the wire of a time packet.
pub const TIME_PACKET_SIZE: usize = 1320;

/// Size on the wire of a statistics request.
pub const STATS_REQUEST_SIZE: usize = 8;

/// Size on the wire of the fixed header of a statistics reply.
pub const STATS_REPLY_HEADER_SIZE: usize = 16;

/// Size on the wire of a statistics reply: its header, the sender's report
/// and its node statistics.
pub const STATS_REPLY_SIZE: usize = 120;

/// Size of the payload of a statistics reply.
pub const STATS_REPLY_PAYLOAD_SIZE: usize = 104;

/// The largest packet bark sends.
pub const MAX_PACKET_SIZE: usize = 1320;

/// Offset of the audio samples in an audio packet.
pub const AUDIO_SAMPLES_OFFSET: usize = 40;

/// Number of zero bytes that pad a time packet after its timestamps.
pub const TIME_PADDING_SIZE: usize = 1272;

/// The abstract content of an audio packet.
pub struct AudioPacketView {
    pub magic: u32,
    pub flags: u32,
    pub sid: i64,
    pub seq: u64,
    pub pts: u64,
    pub dts: u64,
    pub buffer: Seq<u32>,
}

/// The abstract content of a statistics reply.
pub struct StatsReplyView {
    pub magic: u32,
    pub flags: u32,
    pub sid: i64,
    pub payload: Seq<u8>,
}

/// The abstract content of a packet of any kind.
pub enum PacketView {
    Audio(AudioPacketView),
    Time(TimePacket),
    StatsRequest(StatsRequestPacket),
    StatsReply(StatsReplyView),
}

impl View for AudioPacket {
    type V = AudioPacketView;

    open spec fn view(&self) -> AudioPacketView {
        AudioPacketView {
            magic: self.magic,
            flags: self.flags,
            sid: self.sid.0,
            seq: self.seq,
            pts: self.pts.0,
            dts: self.dts.0,
            buffer: self.buffer.0@,
        }
    }
}

impl View for StatsReplyPacket {
    type V = StatsReplyView;

    open spec fn view(&self) -> StatsReplyView {
        StatsReplyView {
            magic: self.magic,
            flags: self.flags.0,
            sid: self.sid.0,
            payload: self.payload@,
        }
    }
}

/// A parsed packet of any kind.
#[derive(Debug, Clone, PartialEq, Eq)]
pub enum Packet {
    Audio(AudioPacket),
    Time(TimePacket),
    StatsRequest(StatsRequestPacket),
    StatsReply(StatsReplyPacket),
}

impl View for Packet {
    type V = PacketView;

    open spec fn view(&self) -> PacketView {
        match self {
            Packet::Audio(p) => PacketView::Audio(p@),
            Packet::Time(p) => PacketView::Time(*p),
            Packet::StatsRequest(p) => PacketView::StatsRequest(*p),
            Packet::StatsReply(p) => PacketView::StatsReply(p@),
        }
    }
}

// ---- field encodings ----

/// The little-endian `u32` at `at` in `raw`.
pub open spec fn u32_at(raw: Seq<u8>, at: int) -> u32 {
    spec_u32_from_le_bytes(raw.subrange(at, at + 4))
}

/// The little-endian `u64` at `at` in `raw`.
pub open spec fn u64_at(raw: Seq<u8>, at: int) -> u64 {
    spec_u64_from_le_bytes(raw.subrange(at, at + 8))
}

/// The little-endian two's complement `i64` at `at` in `raw`.
pub open spec fn i64_at(raw: Seq<u8>, at: int) -> i64 {
    u64_at(raw, at) as i64
}

/// The bytes of a two's complement `i64`, little-endian.
pub open spec fn i64_le(x: i64) -> Seq<u8> {
    spec_u64_to_le_bytes(x as u64)
}

/// Little-endian bytes of each sample in turn.
pub open spec fn samples_le(s: Seq<u32>) -> Seq<u8>
    decreases s.len(),
{
    if s.len() == 0 {
        Seq::empty()
    } else {
        samples_le(s.drop_last()) + spec_u32_to_le_bytes(s.last())
    }
}

/// The `n` samples stored little-endian from `at` in `raw`.
pub open spec fn samples_at(raw: Seq<u8>, at: int, n: nat) -> Seq<u32> {
    Seq::new(n, |k: int| u32_at(raw, at + 4 * k))
}

/// `n` zero bytes.
pub open spec fn zeros(n: nat) -> Seq<u8> {
    Seq::new(n, |k: int| 0u8)
}

// ---- packet encodings ----

/// The first four bytes of a packet, which tell its kind.
pub open spec fn magic_of(raw: Seq<u8>) -> u32 {
    u32_at(raw, 0)
}

/// The bytes of an audio packet on the wire.
pub open spec fn audio_bytes(p: AudioPacketView) -> Seq<u8> {
    spec_u32_to_le_bytes(p.magic) + spec_u32_to_le_bytes(p.flags) + i64_le(p.sid)
        + spec_u64_to_le_bytes(p.seq) + spec_u64_to_le_bytes(p.pts) + spec_u64_to_le_bytes(p.dts)
        + samples_le(p.buffer)
}

/// The bytes of a time packet on the wire, padding included.
pub open spec fn time_bytes(p: TimePacket) -> Seq<u8> {
    spec_u32_to_le_bytes(p.magic) + spec_u32_to_le_bytes(p.flags) + i64_le(p.sid.0)
        + spec_u64_to_le_bytes(p.rid.0) + spec_u64_to_le_bytes(p.stream_1.0)
        + spec_u64_to_le_bytes(p.receive_2.0) + spec_u64_to_le_bytes(p.stream_3.0)
        + zeros(TIME_PADDING_SIZE as nat)
}

/// The bytes of a statistics request on the wire.
pub open spec fn stats_request_bytes(p: StatsRequestPacket) -> Seq<u8> {
    spec_u32_to_le_bytes(p.magic) + spec_u32_to_le_bytes(p.flags)
}

/// The bytes of a statistics reply on the wire.
pub open spec fn stats_reply_bytes(p: StatsReplyView) -> Seq<u8> {
    spec_u32_to_le_bytes(p.magic) + spec_u32_to_le_bytes(p.flags) + i64_le(p.sid) + p.payload
}

/// The bytes of a packet of any kind on the wire.
pub open spec fn packet_bytes(p: PacketView) -> Seq<u8> {
    match p {
        PacketView::Audio(a) => audio_bytes(a),
        PacketView::Time(t) => time_bytes(t),
        PacketView::StatsRequest(r) => stats_request_bytes(r),
        PacketView::StatsReply(r) => stats_reply_bytes(r),
    }
}

/// The audio packet that `raw` holds.
pub open spec fn decode_audio(raw: Seq<u8>) -> AudioPacketView {
    AudioPacketView {
        magic: u32_at(raw, 0),
        flags: u32_at(raw, 4),
        sid: i64_at(raw, 8),
        seq: u64_at(raw, 16),
        pts: u64_at(raw, 24),
        dts: u64_at(raw, 32),
        buffer: samples_at(raw, AUDIO_SAMPLES_OFFSET as int, SAMPLES_PER_PACKET as nat),
    }
}

/// The time packet that `raw` holds; its padding is not read.
pub open spec fn decode_time(raw: Seq<u8>) -> TimePacket {
    TimePacket {
        magic: u32_at(raw, 0),
        flags: u32_at(raw, 4),
        sid: SessionId(i64_at(raw, 8)),
        rid: ReceiverId(u64_at(raw, 16)),
        stream_1: TimestampMicros(u64_at(raw, 24)),
        receive_2: TimestampMicros(u64_at(raw, 32)),
        stream_3: TimestampMicros(u64_at(raw, 40)),
    }
}

/// The statistics request that `raw` holds.
pub open spec fn decode_stats_request(raw: Seq<u8>) -> StatsRequestPacket {
    StatsRequestPacket { magic: u32_at(raw, 0), flags: u32_at(raw, 4) }
}

/// The statistics reply that `raw` holds.
pub open spec fn decode_stats_reply(raw: Seq<u8>) -> StatsReplyView {
    StatsReplyView {
        magic: u32_at(raw, 0),
        flags: u32_at(raw, 4),
        sid: i64_at(raw, 8),
        payload: raw.subrange(STATS_REPLY_HEADER_SIZE as int, raw.len() as int),
    }
}

/// The packet that `raw` holds: its kind is told by its first four bytes,
/// and it must have exactly the size of that kind. Anything else holds no
/// packet.
pub open spec fn parse_packet(raw: Seq<u8>) -> Option<PacketView> {
    if raw.len() < 4 {
        None
    } else if magic_of(raw) == MAGIC_TIME {
        if raw.len() == TIME_PACKET_SIZE {
            Some(PacketView::Time(decode_time(raw)))
        } else {
            None
        }
    } else if magic_of(raw) == MAGIC_AUDIO {
        if raw.len() == AUDIO_PACKET_SIZE {
            Some(PacketView::Audio(decode_audio(raw)))
        } else {
            None
        }
    } else if magic_of(raw) == MAGIC_STATS_REQ {
        if raw.len() == STATS_REQUEST_SIZE {
            Some(PacketView::StatsRequest(decode_stats_request(raw)))
        } else {
            None
        }
    } else if magic_of(raw) == MAGIC_STATS_REPLY {
        if raw.len() == STATS_REPLY_SIZE {
            Some(PacketView::StatsReply(decode_stats_reply(raw)))
        } else {
            None
        }
    } else {
        None
    }
}

// ---- exec field readers and writers ----

fn read_u32(raw: &[u8], at: usize) -> (r: u32)
    requires
        at + 4 <= raw.len(),
    ensures
        r == u32_at(raw@, at as int),
{
    u32_from_le_bytes(&raw[at..at + 4])
}

fn read_u64(raw: &[u8], at: usize) -> (r: u64)
    requires
        at + 8 <= raw.len(),
    ensures
        r == u64_at(raw@, at as int),
{
    u64_from_le_bytes(&raw[at..at + 8])
}

pub(crate) fn read_i64(raw: &[u8], at: usize) -> (r: i64)
    requires
        at + 8 <= raw.len(),
    ensures
        r == i64_at(raw@, at as int),
{
    read_u64(raw, at) as i64
}

fn write_u32(out: &mut Vec<u8>, x: u32)
    ensures
        final(out)@ == old(out)@ + spec_u32_to_le_bytes(x),
{
    let mut bytes = u32_to_le_bytes(x);
    out.append(&mut bytes);
}

fn write_u64(out: &mut Vec<u8>, x: u64)
    ensures
        final(out)@ == old(out)@ + spec_u64_to_le_bytes(x),
{
    let mut bytes = u64_to_le_bytes(x);
    out.append(&mut bytes);
}

pub(crate) fn write_i64(out: &mut Vec<u8>, x: i64)
    ensures
        final(out)@ == old(out)@ + i64_le(x),
{
    write_u64(out, x as u64);
}


fn read_samples(raw: &[u8]) -> (r: Vec<u32>)
    requires
        raw.len() == AUDIO_PACKET_SIZE,
    ensures
        r@ == samples_at(raw@, AUDIO_SAMPLES_OFFSET as int, SAMPLES_PER_PACKET as nat),
{
    let mut buf: Vec<u32> = Vec::new();
    let mut k: usize = 0;
    while k < SAMPLES_PER_PACKET
        invariant
            raw.len() == AUDIO_PACKET_SIZE,
            k <= SAMPLES_PER_PACKET,
            buf@ =~= samples_at(raw@, AUDIO_SAMPLES_OFFSET as int, k as nat),
        decreases SAMPLES_PER_PACKET - k,
    {
        let sample = read_u32(raw, AUDIO_SAMPLES_OFFSET + 4 * k);
        buf.push(sample);
        k += 1;
        assert(buf@ =~= samples_at(raw@, AUDIO_SAMPLES_OFFSET as int, k as nat));
    }
    buf
}

fn write_samples(out: &mut Vec<u8>, samples: &Vec<u32>)
    ensures
        final(out)@ == old(out)@ + samples_le(samples@),
{
    let ghost start = out@;
    let mut k: usize = 0;
    while k < samples.len()
        invariant
            k <= samples.len(),
            out@ == start + samples_le(samples@.subrange(0, k as int)),
        decreases samples.len() - k,
    {
        let ghost before = out@;
        write_u32(out, samples[k]);
        proof {
            let next = samples@.subrange(0, k + 1);
            assert(next.drop_last() =~= samples@.subrange(0, k as int));
            assert(next.last() == samples@[k as int]);
            assert(samples_le(next) == samples_le(samples@.subrange(0, k as int))
                + spec_u32_to_le_bytes(samples@[k as int]));
        }
        k += 1;
    }
    assert(samples@.subrange(0, samples.len() as int) =~= samples@);
}

impl Packet {
    /// Parses the packet that the received bytes `raw` hold, or `None` when
    /// they hold none (see `parse_packet`). The bytes must include at least
    /// the four that tell the packet's kind.
    pub fn try_from_bytes_mut(raw: &[u8]) -> (r: Option<Packet>)
        requires
            raw.len() >= 4,
        ensures
            match r {
                Some(p) => parse_packet(raw@) == Some(p@),
                None => parse_packet(raw@) is None,
            },
    {
        let magic = read_u32(raw, 0);

        if magic == MAGIC_TIME {
            if raw.len() != TIME_PACKET_SIZE {
                return None;
            }
            let p = TimePacket {
                magic,
                flags: read_u32(raw, 4),
                sid: SessionId(read_i64(raw, 8)),
                rid: ReceiverId(read_u64(raw, 16)),
                stream_1: TimestampMicros(read_u64(raw, 24)),
                receive_2: TimestampMicros(read_u64(raw, 32)),
                stream_3: TimestampMicros(read_u64(raw, 40)),
            };
            return Some(Packet::Time(p));
        }

        if magic == MAGIC_AUDIO {
            if raw.len() != AUDIO_PACKET_SIZE {
                return None;
            }
            let p = AudioPacket {
                magic,
                flags: read_u32(raw, 4),
                sid: SessionId(read_i64(raw, 8)),
                seq: read_u64(raw, 16),
                pts: TimestampMicros(read_u64(raw, 24)),
                dts: TimestampMicros(read_u64(raw, 32)),
                buffer: PacketBuffer(read_samples(raw)),
            };
            return Some(Packet::Audio(p));
        }

        if magic == MAGIC_STATS_REQ {
            if raw.len() != STATS_REQUEST_SIZE {
                return None;
            }
            let p = StatsRequestPacket { magic, flags: read_u32(raw, 4) };
            return Some(Packet::StatsRequest(p));
        }

        if magic == MAGIC_STATS_REPLY {
            if raw.len() != STATS_REPLY_SIZE {
                return None;
            }
            let payload = vstd::slice::slice_to_vec(&raw[STATS_REPLY_HEADER_SIZE..raw.len()]);
            let p = StatsReplyPacket {
                magic,
                flags: StatsReplyFlags(read_u32(raw, 4)),
                sid: SessionId(read_i64(raw, 8)),
                payload,
            };
            return Some(Packet::StatsReply(p));
        }

        None
    }

    /// The bytes of this packet on the wire.
    pub fn as_bytes(&self) -> (r: Vec<u8>)
        ensures
            r@ == packet_bytes(self@),
    {
        match self {
            Packet::Audio(p) => p.as_bytes(),
            Packet::Time(p) => p.as_bytes(),
            Packet::StatsRequest(p) => p.as_bytes(),
            Packet::StatsReply(p) => p.as_bytes(),
        }
    }
}

impl AudioPacket {
    /// The bytes of this packet on the wire.
    pub fn as_bytes(&self) -> (r: Vec<u8>)
        ensures
            r@ == audio_bytes(self@),
    {
        let mut out: Vec<u8> = Vec::new();
        write_u32(&mut out, self.magic);
        write_u32(&mut out, self.flags);
        write_i64(&mut out, self.sid.0);
        write_u64(&mut out, self.seq);
        write_u64(&mut out, self.pts.0);
        write_u64(&mut out, self.dts.0);
        write_samples(&mut out, &self.buffer.0);
        out
    }
}

impl TimePacket {
    /// The bytes of this packet on the wire, padded with zeros.
    pub fn as_bytes(&self) -> (r: Vec<u8>)
        ensures
            r@ == time_bytes(*self),
    {
        let mut out: Vec<u8> = Vec::new();
        write_u32(&mut out, self.magic);
        write_u32(&mut out, self.flags);
        write_i64(&mut out, self.sid.0);
        write_u64(&mut out, self.rid.0);
        write_u64(&mut out, self.stream_1.0);
        write_u64(&mut out, self.receive_2.0);
        write_u64(&mut out, self.stream_3.0);
        let ghost header = out@;
        let mut k: usize = 0;
        while k < TIME_PADDING_SIZE
            invariant
                k <= TIME_PADDING_SIZE,
                out@ =~= header + zeros(k as nat),
            decreases TIME_PADDING_SIZE - k,
        {
            out.push(0u8);
            k += 1;
        }
        out
    }
}

impl StatsRequestPacket {
    /// The bytes of this packet on the wire.
    pub fn as_bytes(&self) -> (r: Vec<u8>)
        ensures
            r@ == stats_request_bytes(*self),
    {
        let mut out: Vec<u8> = Vec::new();
        write_u32(&mut out, self.magic);
        write_u32(&mut out, self.flags);
        out
    }
}

impl StatsReplyPacket {
    /// The bytes of this packet on the wire.
    pub fn as_bytes(&self) -> (r: Vec<u8>)
        ensures
            r@ == stats_reply_bytes(self@),
    {
        let mut out: Vec<u8> = Vec::new();
        write_u32(&mut out, self.magic);
        write_u32(&mut out, self.flags.0);
        write_i64(&mut out, self.sid.0);
        let ghost header = out@;
        let mut k: usize = 0;
        while k < self.payload.len()
            invariant
                k <= self.payload.len(),
                out@ =~= header + self.payload@.subrange(0, k as int),
            decreases self.payload.len() - k,
        {
            out.push(self.payload[k]);
            k += 1;
        }
        out
    }
}


// ---- round trip laws ----

/// The encoding of `n` samples takes `4 * n` bytes, and sample `k` sits at
/// bytes `4 * k .. 4 * k + 4`.
proof fn lemma_samples_le(s: Seq<u32>)
    ensures
        samples_le(s).len() == 4 * s.len(),
        forall|k: int|
            #![trigger s[k]]
            0 <= k < s.len() ==> samples_le(s).subrange(4 * k, 4 * k + 4)
                == spec_u32_to_le_bytes(s[k]),
    decreases s.len(),
{
    lemma_auto_spec_u32_to_from_le_bytes();
    if s.len() > 0 {
        let init = s.drop_last();
        lemma_samples_le(init);
        let whole = samples_le(s);
        assert(whole == samples_le(init) + spec_u32_to_le_bytes(s.last()));
        assert forall|k: int| 0 <= k < s.len() implies #[trigger] whole.subrange(4 * k, 4 * k + 4)
            == spec_u32_to_le_bytes(s[k]) by {
            if k < init.len() {
                assert(init[k] == s[k]);
                assert(whole.subrange(4 * k, 4 * k + 4) =~= samples_le(init).subrange(
                    4 * k,
                    4 * k + 4,
                ));
            } else {
                assert(whole.subrange(4 * k, 4 * k + 4) =~= spec_u32_to_le_bytes(s.last()));
            }
        }
    }
}

/// Two's complement bits of an `i64` read back as an `i64` give it back.
pub(crate) proof fn lemma_i64_bits(x: i64)
    ensures
        ((x as u64) as i64) == x,
{
    assert(((x as u64) as i64) == x) by (bit_vector);
}

/// Decoding the bytes of an audio packet gives the packet back.
pub proof fn lemma_audio_round_trip(p: AudioPacketView)
    requires
        p.magic == MAGIC_AUDIO,
        p.buffer.len() == SAMPLES_PER_PACKET,
    ensures
        parse_packet(audio_bytes(p)) == Some(PacketView::Audio(p)),
{
    lemma_auto_spec_u32_to_from_le_bytes();
    lemma_auto_spec_u64_to_from_le_bytes();
    lemma_samples_le(p.buffer);
    lemma_i64_bits(p.sid);
    let raw = audio_bytes(p);
    let head = spec_u32_to_le_bytes(p.magic) + spec_u32_to_le_bytes(p.flags);
    let sid_b = i64_le(p.sid);
    let seq_b = spec_u64_to_le_bytes(p.seq);
    let pts_b = spec_u64_to_le_bytes(p.pts);
    let dts_b = spec_u64_to_le_bytes(p.dts);
    let body = samples_le(p.buffer);
    assert(raw == head + sid_b + seq_b + pts_b + dts_b + body);
    assert(raw.len() == AUDIO_PACKET_SIZE);
    assert(raw.subrange(0, 4) =~= spec_u32_to_le_bytes(p.magic));
    assert(raw.subrange(4, 8) =~= spec_u32_to_le_bytes(p.flags));
    assert(raw.subrange(8, 16) =~= sid_b);
    assert(raw.subrange(16, 24) =~= seq_b);
    assert(raw.subrange(24, 32) =~= pts_b);
    assert(raw.subrange(32, 40) =~= dts_b);
    let d = decode_audio(raw);
    assert forall|k: int| 0 <= k < SAMPLES_PER_PACKET implies #[trigger] d.buffer[k] == p.buffer[k] by {
        assert(raw.subrange(40 + 4 * k, 40 + 4 * k + 4) =~= body.subrange(4 * k, 4 * k + 4));
        assert(p.buffer[k] == p.buffer[k]);
    }
    assert(d.buffer =~= p.buffer);
}

/// Where each field of an audio packet lies on the wire: its magic at byte
/// 0, flags at 4, session at 8, sequence number at 16, presentation time at
/// 24 and send time at 32, each little-endian, then sample `k` at
/// `40 + 4 * k`.
pub proof fn lemma_audio_layout(p: AudioPacketView)
    ensures
        audio_bytes(p).len() == AUDIO_SAMPLES_OFFSET + 4 * p.buffer.len(),
        audio_bytes(p).subrange(0, 4) == spec_u32_to_le_bytes(p.magic),
        audio_bytes(p).subrange(4, 8) == spec_u32_to_le_bytes(p.flags),
        audio_bytes(p).subrange(8, 16) == spec_u64_to_le_bytes(p.sid as u64),
        audio_bytes(p).subrange(16, 24) == spec_u64_to_le_bytes(p.seq),
        audio_bytes(p).subrange(24, 32) == spec_u64_to_le_bytes(p.pts),
        audio_bytes(p).subrange(32, 40) == spec_u64_to_le_bytes(p.dts),
        forall|k: int|
            0 <= k < p.buffer.len() ==> audio_bytes(p).subrange(40 + 4 * k, 44 + 4 * k)
                == spec_u32_to_le_bytes(#[trigger] p.buffer[k]),
{
    lemma_auto_spec_u32_to_from_le_bytes();
    lemma_auto_spec_u64_to_from_le_bytes();
    lemma_samples_le(p.buffer);
    let raw = audio_bytes(p);
    let head = spec_u32_to_le_bytes(p.magic) + spec_u32_to_le_bytes(p.flags);
    let sid_b = spec_u64_to_le_bytes(p.sid as u64);
    let seq_b = spec_u64_to_le_bytes(p.seq);
    let pts_b = spec_u64_to_le_bytes(p.pts);
    let dts_b = spec_u64_to_le_bytes(p.dts);
    let body = samples_le(p.buffer);
    assert(raw == head + sid_b + seq_b + pts_b + dts_b + body);
    assert(raw.subrange(0, 4) =~= spec_u32_to_le_bytes(p.magic));
    assert(raw.subrange(4, 8) =~= spec_u32_to_le_bytes(p.flags));
    assert(raw.subrange(8, 16) =~= sid_b);
    assert(raw.subrange(16, 24) =~= seq_b);
    assert(raw.subrange(24, 32) =~= pts_b);
    assert(raw.subrange(32, 40) =~= dts_b);
    assert forall|k: int| 0 <= k < p.buffer.len() implies raw.subrange(40 + 4 * k, 44 + 4 * k)
        == spec_u32_to_le_bytes(#[trigger] p.buffer[k]) by {
        assert(raw.subrange(40 + 4 * k, 44 + 4 * k) =~= body.subrange(4 * k, 4 * k + 4));
    }
}

/// What an audio packet read off the wire holds: bytes of the audio kind
/// and size read as an audio packet whose fields are the little-endian
/// values at the offsets of `lemma_audio_layout`.
pub proof fn lemma_audio_fields_read(raw: Seq<u8>)
    requires
        raw.len() == AUDIO_PACKET_SIZE,
        spec_u32_from_le_bytes(raw.subrange(0, 4)) == MAGIC_AUDIO,
    ensures
        parse_packet(raw) matches Some(PacketView::Audio(a)) && {
            &&& a.magic == MAGIC_AUDIO
            &&& a.flags == spec_u32_from_le_bytes(raw.subrange(4, 8))
            &&& a.sid == spec_u64_from_le_bytes(raw.subrange(8, 16)) as i64
            &&& a.seq == spec_u64_from_le_bytes(raw.subrange(16, 24))
            &&& a.pts == spec_u64_from_le_bytes(raw.subrange(24, 32))
            &&& a.dts == spec_u64_from_le_bytes(raw.subrange(32, 40))
            &&& a.buffer.len() == SAMPLES_PER_PACKET
            &&& forall|k: int|
                0 <= k < SAMPLES_PER_PACKET ==> #[trigger] a.buffer[k] == spec_u32_from_le_bytes(
                    raw.subrange(40 + 4 * k, 44 + 4 * k),
                )
        },
{
}

/// Decoding the bytes of a time packet gives the packet back.
pub proof fn lemma_time_round_trip(p: TimePacket)
    requires
        p.magic == MAGIC_TIME,
    ensures
        parse_packet(time_bytes(p)) == Some(PacketView::Time(p)),
{
    lemma_auto_spec_u32_to_from_le_bytes();
    lemma_auto_spec_u64_to_from_le_bytes();
    lemma_i64_bits(p.sid.0);
    let raw = time_bytes(p);
    assert(raw.len() == TIME_PACKET_SIZE);
    assert(raw.subrange(0, 4) =~= spec_u32_to_le_bytes(p.magic));
    assert(raw.subrange(4, 8) =~= spec_u32_to_le_bytes(p.flags));
    assert(raw.subrange(8, 16) =~= i64_le(p.sid.0));
    assert(raw.subrange(16, 24) =~= spec_u64_to_le_bytes(p.rid.0));
    assert(raw.subrange(24, 32) =~= spec_u64_to_le_bytes(p.stream_1.0));
    assert(raw.subrange(32, 40) =~= spec_u64_to_le_bytes(p.receive_2.0));
    assert(raw.subrange(40, 48) =~= spec_u64_to_le_bytes(p.stream_3.0));
}

/// Decoding the bytes of a statistics request gives the request back.
pub proof fn lemma_stats_request_round_trip(p: StatsRequestPacket)
    requires
        p.magic == MAGIC_STATS_REQ,
    ensures
        parse_packet(stats_request_bytes(p)) == Some(PacketView::StatsRequest(p)),
{
    lemma_auto_spec_u32_to_from_le_bytes();
    let raw = stats_request_bytes(p);
    assert(raw.subrange(0, 4) =~= spec_u32_to_le_bytes(p.magic));
    assert(raw.subrange(4, 8) =~= spec_u32_to_le_bytes(p.flags));
}

/// Decoding the bytes of a statistics reply gives the reply back.
pub proof fn lemma_stats_reply_round_trip(p: StatsReplyView)
    requires
        p.magic == MAGIC_STATS_REPLY,
        p.payload.len() == STATS_REPLY_PAYLOAD_SIZE,
    ensures
        parse_packet(stats_reply_bytes(p)) == Some(PacketView::StatsReply(p)),
{
    lemma_auto_spec_u32_to_from_le_bytes();
    lemma_auto_spec_u64_to_from_le_bytes();
    lemma_i64_bits(p.sid);
    let raw = stats_reply_bytes(p);
    assert(raw.subrange(0, 4) =~= spec_u32_to_le_bytes(p.magic));
    assert(raw.subrange(4, 8) =~= spec_u32_to_le_bytes(p.flags));
    assert(raw.subrange(8, 16) =~= i64_le(p.sid));
    assert(raw.subrange(16, raw.len() as int) =~= p.payload);
}

/// A packet is well formed when its magic is the one of its kind, an audio
/// packet carries exactly one packet's worth of samples and a statistics
/// reply a report and node statistics.
pub open spec fn packet_well_formed(p: PacketView) -> bool {
    match p {
        PacketView::Audio(a) => a.magic == MAGIC_AUDIO && a.buffer.len() == SAMPLES_PER_PACKET,
        PacketView::Time(t) => t.magic == MAGIC_TIME,
        PacketView::StatsRequest(r) => r.magic == MAGIC_STATS_REQ,
        PacketView::StatsReply(r) => r.magic == MAGIC_STATS_REPLY && r.payload.len()
            == STATS_REPLY_PAYLOAD_SIZE,
    }
}

/// Parsing the bytes that a well formed packet is sent as gives the packet
/// back: what one node sends, another reads unchanged.
pub proof fn lemma_packet_round_trip(p: PacketView)
    requires
        packet_well_formed(p),
    ensures
        parse_packet(packet_bytes(p)) == Some(p),
{
    match p {
        PacketView::Audio(a) => lemma_audio_round_trip(a),
        PacketView::Time(t) => lemma_time_round_trip(t),
        PacketView::StatsRequest(r) => lemma_stats_request_round_trip(r),
        PacketView::StatsReply(r) => lemma_stats_reply_round_trip(r),
    }
}

} // verus!
