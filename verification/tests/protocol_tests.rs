use bark::clock::{clock_micros, now, ClockKind};
use bark::protocol::{
    ReceiverId, SessionId, StatsReplyFlags, TimePacket, TimePhase, TimestampMicros, MAGIC_TIME,
};
use bark::source::time_broadcast;

fn time_packet(t1: u64, t2: u64, t3: u64) -> TimePacket {
    TimePacket {
        magic: MAGIC_TIME,
        flags: 0,
        sid: SessionId(7),
        rid: ReceiverId(0),
        stream_1: TimestampMicros(t1),
        receive_2: TimestampMicros(t2),
        stream_3: TimestampMicros(t3),
    }
}

#[test]
fn time_packet_phases() {
    assert_eq!(time_packet(1, 0, 0).phase(), Some(TimePhase::Broadcast));
    assert_eq!(time_packet(1, 2, 0).phase(), Some(TimePhase::ReceiverReply));
    assert_eq!(time_packet(1, 2, 3).phase(), Some(TimePhase::StreamReply));
    assert_eq!(time_packet(0, 0, 0).phase(), None);
    assert_eq!(time_packet(1, 0, 3).phase(), None);
    assert_eq!(time_packet(0, 2, 3).phase(), None);
}

#[test]
fn receiver_ids() {
    let all = ReceiverId::broadcast();
    assert!(all.is_broadcast());
    assert!(!ReceiverId(5).is_broadcast());
    assert!(all.matches(&ReceiverId(5)));
    assert!(ReceiverId(5).matches(&ReceiverId(5)));
    assert!(!ReceiverId(6).matches(&ReceiverId(5)));
}

#[test]
fn stats_reply_flags() {
    assert!(StatsReplyFlags(0x03).contains(StatsReplyFlags::is_receiver()));
    assert!(StatsReplyFlags(0x03).contains(StatsReplyFlags::is_stream()));
    assert!(!StatsReplyFlags::is_stream().contains(StatsReplyFlags::is_receiver()));
}

#[test]
fn clocks_are_readable() {
    assert!(clock_micros(ClockKind::Realtime).unwrap() > 1_577_836_800_000_000);
    assert!(clock_micros(ClockKind::Boottime).unwrap() >= 0);
    assert!(now().unwrap().0 > 1_577_836_800_000_000);
    assert!(TimestampMicros::now().is_some());
    assert!(SessionId::generate().unwrap().0 > 1_577_836_800_000_000);
}

#[test]
fn receiver_ids_are_random() {
    let a = ReceiverId::generate();
    let b = ReceiverId::generate();
    let c = ReceiverId::generate();
    assert!(a != b || b != c);
}

#[test]
fn time_broadcast_starts_an_exchange() {
    let p = time_broadcast(SessionId(9), TimestampMicros(1234));
    assert_eq!(p, time_packet(1234, 0, 0).with_sid(9));
    assert_eq!(p.phase(), Some(TimePhase::Broadcast));
    assert!(p.rid.is_broadcast());
}

trait WithSid {
    fn with_sid(self, sid: i64) -> Self;
}

impl WithSid for TimePacket {
    fn with_sid(self, sid: i64) -> Self {
        TimePacket { sid: SessionId(sid), ..self }
    }
}
