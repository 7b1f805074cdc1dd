use bark::packet::{
    Packet, AUDIO_PACKET_SIZE, MAX_PACKET_SIZE, STATS_REPLY_SIZE, STATS_REQUEST_SIZE, TIME_PACKET_SIZE,
};
use bark::protocol::{
    AudioPacket, PacketBuffer, ReceiverId, SessionId, StatsReplyFlags, StatsReplyPacket,
    StatsRequestPacket, TimePacket, TimestampMicros, MAGIC_AUDIO, MAGIC_STATS_REPLY,
    MAGIC_STATS_REQ, MAGIC_TIME, SAMPLES_PER_PACKET,
};

fn audio_packet() -> AudioPacket {
    AudioPacket {
        magic: MAGIC_AUDIO,
        flags: 0,
        sid: SessionId(0x0102_0304_0506_0708),
        seq: 42,
        pts: TimestampMicros(1_000_000),
        dts: TimestampMicros(999_000),
        buffer: PacketBuffer((0..SAMPLES_PER_PACKET as u32).map(|i| i * 3 + 1).collect()),
    }
}

#[test]
fn audio_packet_round_trip() {
    let p = audio_packet();
    let bytes = p.as_bytes();
    assert_eq!(bytes.len(), AUDIO_PACKET_SIZE);
    // little-endian header
    assert_eq!(&bytes[0..4], &MAGIC_AUDIO.to_le_bytes());
    assert_eq!(&bytes[16..24], &42u64.to_le_bytes());
    // samples start at byte 40
    assert_eq!(&bytes[40..44], &1u32.to_le_bytes());
    assert_eq!(Packet::try_from_bytes_mut(&bytes), Some(Packet::Audio(p)));
}

#[test]
fn time_packet_round_trip() {
    let p = TimePacket {
        magic: MAGIC_TIME,
        flags: 0,
        sid: SessionId(-5),
        rid: ReceiverId(77),
        stream_1: TimestampMicros(10),
        receive_2: TimestampMicros(20),
        stream_3: TimestampMicros(30),
    };
    let bytes = p.as_bytes();
    assert_eq!(bytes.len(), TIME_PACKET_SIZE);
    assert!(bytes[48..].iter().all(|b| *b == 0));
    assert_eq!(Packet::try_from_bytes_mut(&bytes), Some(Packet::Time(p)));
}

#[test]
fn stats_packets_round_trip() {
    let req = StatsRequestPacket { magic: MAGIC_STATS_REQ, flags: 0 };
    let bytes = req.as_bytes();
    assert_eq!(bytes.len(), STATS_REQUEST_SIZE);
    assert_eq!(Packet::try_from_bytes_mut(&bytes), Some(Packet::StatsRequest(req)));

    let reply = StatsReplyPacket {
        magic: MAGIC_STATS_REPLY,
        flags: StatsReplyFlags::is_stream(),
        sid: SessionId(3),
        payload: (0..104u32).map(|i| i as u8).collect(),
    };
    let bytes = reply.as_bytes();
    assert_eq!(bytes.len(), STATS_REPLY_SIZE);
    assert_eq!(Packet::try_from_bytes_mut(&bytes), Some(Packet::StatsReply(reply)));
}

#[test]
fn packet_as_bytes_matches_each_kind() {
    let p = audio_packet();
    assert_eq!(Packet::Audio(p.clone()).as_bytes(), p.as_bytes());
    assert!(MAX_PACKET_SIZE >= AUDIO_PACKET_SIZE);
}

#[test]
fn unknown_or_malformed_packets_are_refused() {
    // unknown magic
    assert_eq!(Packet::try_from_bytes_mut(&[1, 2, 3, 4, 5, 6, 7, 8]), None);
    // audio packet of the wrong size
    let mut bytes = audio_packet().as_bytes();
    bytes.pop();
    assert_eq!(Packet::try_from_bytes_mut(&bytes), None);
    // time packet of the wrong size
    let mut t = MAGIC_TIME.to_le_bytes().to_vec();
    t.extend_from_slice(&[0; 20]);
    assert_eq!(Packet::try_from_bytes_mut(&t), None);
    // statistics request of the wrong size
    let mut r = MAGIC_STATS_REQ.to_le_bytes().to_vec();
    r.extend_from_slice(&[0; 8]);
    assert_eq!(Packet::try_from_bytes_mut(&r), None);
    // statistics reply shorter than its header
    let mut s = MAGIC_STATS_REPLY.to_le_bytes().to_vec();
    s.extend_from_slice(&[0; 4]);
    assert_eq!(Packet::try_from_bytes_mut(&s), None);
    // statistics reply of any other size than the fixed one
    let mut s = MAGIC_STATS_REPLY.to_le_bytes().to_vec();
    s.extend_from_slice(&[0; 13]);
    assert_eq!(s.len(), 17);
    assert_eq!(Packet::try_from_bytes_mut(&s), None);
    let mut s = MAGIC_STATS_REPLY.to_le_bytes().to_vec();
    s.extend_from_slice(&[0; STATS_REPLY_SIZE - 3]);
    assert_eq!(Packet::try_from_bytes_mut(&s), None);
}
