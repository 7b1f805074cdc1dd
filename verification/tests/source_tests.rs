use bark::node::{as_fixed, NodeStats};
use bark::report::{stats_payload, ReceiverStats};
use bark::packet::Packet;
use bark::protocol::{
    AudioPacket, PacketBuffer, ReceiverId, SessionId, StatsReplyFlags, StatsReplyPacket,
    TimePacket, TimestampMicros, MAGIC_AUDIO, MAGIC_STATS_REPLY, MAGIC_TIME,
};
use bark::source::{handle_source_packet, handle_source_packet_at, stats_request, SourceAction};

const SID: SessionId = SessionId(500);

fn node() -> NodeStats {
    NodeStats { username: as_fixed("src"), hostname: as_fixed("desk") }
}

fn audio_from(sid: i64) -> Packet {
    Packet::Audio(AudioPacket {
        magic: MAGIC_AUDIO,
        flags: 0,
        sid: SessionId(sid),
        seq: 1,
        pts: TimestampMicros(1),
        dts: TimestampMicros(1),
        buffer: PacketBuffer(vec![0; 320]),
    })
}

fn time(sid: SessionId, t1: u64, t2: u64, t3: u64) -> TimePacket {
    TimePacket {
        magic: MAGIC_TIME,
        flags: 0,
        sid,
        rid: ReceiverId(9),
        stream_1: TimestampMicros(t1),
        receive_2: TimestampMicros(t2),
        stream_3: TimestampMicros(t3),
    }
}

#[test]
fn a_newer_stream_takes_over() {
    assert_eq!(handle_source_packet_at(SID, &node(), audio_from(501), None), SourceAction::Exit);
    assert_eq!(handle_source_packet_at(SID, &node(), audio_from(499), None), SourceAction::Ignore);
    assert_eq!(handle_source_packet_at(SID, &node(), audio_from(500), None), SourceAction::Ignore);
}

#[test]
fn receiver_replies_get_the_stream_time() {
    let reply = time(SID, 10, 20, 0);
    assert_eq!(
        handle_source_packet_at(SID, &node(), Packet::Time(reply), Some(TimestampMicros(30))),
        SourceAction::Reply(Packet::Time(time(SID, 10, 20, 30)))
    );
    // other sessions and other phases are ignored
    let other = time(SessionId(1), 10, 20, 0);
    assert_eq!(handle_source_packet_at(SID, &node(), Packet::Time(other), Some(TimestampMicros(30))), SourceAction::Ignore);
    let broadcast = time(SID, 10, 0, 0);
    assert_eq!(handle_source_packet_at(SID, &node(), Packet::Time(broadcast), Some(TimestampMicros(30))), SourceAction::Ignore);
    match handle_source_packet(SID, &node(), Packet::Time(reply)) {
        SourceAction::Reply(Packet::Time(t)) => assert!(t.stream_3.0 > 0),
        other => panic!("unexpected {other:?}"),
    }
}

#[test]
fn statistics_requests_get_the_source_reply() {
    let expected = StatsReplyPacket {
        magic: MAGIC_STATS_REPLY,
        flags: StatsReplyFlags::is_stream(),
        sid: SID,
        payload: stats_payload(&ReceiverStats::none(), &node()),
    };
    assert_eq!(
        handle_source_packet_at(SID, &node(), Packet::StatsRequest(stats_request()), None),
        SourceAction::Reply(Packet::StatsReply(expected.clone()))
    );
    assert_eq!(handle_source_packet_at(SID, &node(), Packet::StatsReply(expected), None), SourceAction::Ignore);
}
