use bark::aggregate::Aggregate;
use bark::node::{as_fixed, NodeStats};
use bark::report::{parse_stats_payload, ReceiverStats};
use bark::packet::Packet;
use bark::protocol::{
    AudioPacket, PacketBuffer, ReceiverId, SessionId, StatsReplyFlags, StatsRequestPacket,
    TimePacket, TimestampMicros, MAGIC_AUDIO, MAGIC_STATS_REPLY, MAGIC_STATS_REQ, MAGIC_TIME,
    SAMPLES_PER_PACKET,
};
use bark::receive::{
    ClockDelta, RateAdjust, Receiver, ReceiverAction, ReceiverOpt, SampleRate, Timing,
};
use bark::status::StreamStatus;
use bark::time::Timestamp;

const SID: SessionId = SessionId(1_700_000_000_000_000);
const RID: ReceiverId = ReceiverId(77);

fn node() -> NodeStats {
    NodeStats { username: as_fixed("rx"), hostname: as_fixed("kitchen") }
}

fn audio(seq: u64, pts_micros: u64, fill: u32) -> AudioPacket {
    AudioPacket {
        magic: MAGIC_AUDIO,
        flags: 0,
        sid: SID,
        seq,
        pts: TimestampMicros(pts_micros),
        dts: TimestampMicros(pts_micros - 20_000),
        buffer: PacketBuffer((0..SAMPLES_PER_PACKET as u32).map(|i| fill + i).collect()),
    }
}

fn time(rid: ReceiverId, t1: u64, t2: u64, t3: u64) -> TimePacket {
    TimePacket {
        magic: MAGIC_TIME,
        flags: 0,
        sid: SID,
        rid,
        stream_1: TimestampMicros(t1),
        receive_2: TimestampMicros(t2),
        stream_3: TimestampMicros(t3),
    }
}

#[test]
fn aggregate_median() {
    let mut a = Aggregate::new();
    assert_eq!(a.median(), None);
    for v in [5, 1, 9, 3, 7] {
        a.observe(v);
    }
    assert_eq!(a.median(), Some(5));
    for _ in 0..64 {
        a.observe(-2);
    }
    assert_eq!(a.median(), Some(-2));
}

#[test]
fn median_counts_only_the_last_observations() {
    let mut a = Aggregate::new();
    for v in 0..=64 {
        a.observe(v);
    }
    // 0 has dropped out: the window is 1..=64
    assert_eq!(a.median(), Some(33));
}

#[test]
fn a_received_packet_is_queued_as_itself() {
    let mut r = Receiver::new(ReceiverOpt { max_seq_gap: 12 });
    let p = audio(10, 1_000_000, 5);
    r.receive_audio_at(p.clone(), None);
    assert_eq!(r.queue.len(), 1);
    assert_eq!(r.queue[0].seq, 10);
    assert_eq!(r.queue[0].pts, None);
    assert_eq!(r.queue[0].packet, Some(p));
}

#[test]
fn rate_adjust_slews_only_when_far_out() {
    let mut r = RateAdjust::new();
    assert!(!r.slew());
    // 50 frames ahead: within the dead band, stream rate
    let t = Timing { real: Timestamp(1050), play: Timestamp(1000) };
    assert_eq!(r.sample_rate(t), SampleRate(48000));
    assert!(!r.slew());
    // 100 frames ahead: speed up by twice the offset
    let t = Timing { real: Timestamp(1100), play: Timestamp(1000) };
    assert_eq!(r.sample_rate(t), SampleRate(48200));
    assert!(r.slew());
    // once slewing, keeps slewing down to 4 frames
    let t = Timing { real: Timestamp(1010), play: Timestamp(1000) };
    assert_eq!(r.sample_rate(t), SampleRate(48020));
    let t = Timing { real: Timestamp(1003), play: Timestamp(1000) };
    assert_eq!(r.sample_rate(t), SampleRate(48000));
    assert!(!r.slew());
    // far behind: slowed down by at most 2%
    let t = Timing { real: Timestamp(0), play: Timestamp(100_000) };
    assert_eq!(r.sample_rate(t), SampleRate(47040));
}

#[test]
fn clock_delta_from_an_exchange() {
    let d = ClockDelta::from_time_packet(&time(RID, 1_000_000, 1_000_600, 1_001_000)).unwrap();
    assert_eq!(d.as_micros(), 100);
}

#[test]
fn receiver_answers_time_broadcasts_addressed_to_it() {
    let mut r = Receiver::new(ReceiverOpt { max_seq_gap: 12 });
    let b = time(ReceiverId::broadcast(), 5000, 0, 0);
    let a = r.handle_packet_at(Packet::Time(b), RID, &node(), Some(TimestampMicros(6000)));
    assert_eq!(a, ReceiverAction::Reply(Packet::Time(time(RID, 5000, 6000, 0))));
    // addressed to another receiver
    let other = time(ReceiverId(5), 5000, 0, 0);
    assert_eq!(r.handle_packet_at(Packet::Time(other), RID, &node(), Some(TimestampMicros(6000))), ReceiverAction::Ignore);
    // no clock: no answer
    assert_eq!(r.handle_packet_at(Packet::Time(b), RID, &node(), None), ReceiverAction::Ignore);
}

#[test]
fn receiver_answers_statistics_requests() {
    let mut r = Receiver::new(ReceiverOpt { max_seq_gap: 12 });
    let req = Packet::StatsRequest(StatsRequestPacket { magic: MAGIC_STATS_REQ, flags: 0 });
    match r.handle_packet_at(req.clone(), RID, &node(), None) {
        ReceiverAction::Reply(Packet::StatsReply(p)) => {
            assert_eq!(p.magic, MAGIC_STATS_REPLY);
            assert!(p.flags.contains(StatsReplyFlags::is_receiver()));
            assert_eq!(p.sid, SessionId(0));
            let (report, n) = parse_stats_payload(&p.payload).unwrap();
            assert_eq!(n, node());
            assert_eq!(report, ReceiverStats::none());
        },
        other => panic!("unexpected {other:?}"),
    }
    r.handle_packet_at(Packet::Audio(audio(10, 1_000_000, 0)), RID, &node(), None);
    match r.handle_packet_at(req, RID, &node(), None) {
        ReceiverAction::Reply(Packet::StatsReply(p)) => {
            assert_eq!(p.sid, SID);
            let (report, _) = parse_stats_payload(&p.payload).unwrap();
            assert_eq!(report.stream, Some(StreamStatus::Seek));
        },
        other => panic!("unexpected {other:?}"),
    }
}

#[test]
fn receiver_syncs_and_plays_the_stream() {
    let mut r = Receiver::new(ReceiverOpt { max_seq_gap: 12 });
    let now = Some(TimestampMicros(2_000_000));

    // the first packet starts the stream; its due time is not known yet
    r.handle_packet_at(Packet::Audio(audio(10, 999_000, 0)), RID, &node(), now);
    assert_eq!(r.current_session(), Some(SID));

    // a time exchange: 500us each way, receiver clock 100us ahead
    let reply = time(RID, 1_000_000, 1_000_600, 1_001_000);
    assert_eq!(r.handle_packet_at(Packet::Time(reply), RID, &node(), now), ReceiverAction::Ignore);
    assert_eq!(r.stats().network_latency_micros, Some(500));

    // the next packet is due at 1s on the stream's clock: 48004 frames on ours
    r.handle_packet_at(Packet::Audio(audio(11, 1_000_000, 1000)), RID, &node(), now);

    // the first fill drops the slot with no due time and stays silent
    let mut out = vec![7u32; 320];
    assert_eq!(r.fill_stream_buffer(&mut out, Timestamp(48_004)), None);
    assert_eq!(out, vec![0u32; 320]);
    assert_eq!(r.stats().stream, StreamStatus::Seek);

    // the next fill lines up with the packet and plays it
    let mut out = vec![7u32; 320];
    let rate = r.fill_stream_buffer(&mut out, Timestamp(48_004));
    assert_eq!(out, (1000..1320).collect::<Vec<u32>>());
    assert_eq!(r.stats().stream, StreamStatus::Sync);
    assert_eq!(rate, Some(SampleRate(48000)));

    // nothing left: the next fill runs dry
    let mut out = vec![7u32; 320];
    assert_eq!(r.fill_stream_buffer(&mut out, Timestamp(48_164)), None);
    assert_eq!(out, vec![0u32; 320]);
    assert_eq!(r.stats().stream, StreamStatus::Miss);
}

#[test]
fn output_without_a_stream_is_silent() {
    let mut r = Receiver::new(ReceiverOpt { max_seq_gap: 12 });
    let mut out = vec![1u32; 64];
    assert_eq!(r.fill_stream_buffer(&mut out, Timestamp(0)), None);
    assert_eq!(out, vec![0u32; 64]);
}

#[test]
fn newer_sessions_take_over_and_older_ones_are_ignored() {
    let mut r = Receiver::new(ReceiverOpt { max_seq_gap: 12 });
    r.receive_audio_at(audio(10, 1_000_000, 0), None);
    let mut newer = audio(3, 1_000_000, 0);
    newer.sid = SessionId(SID.0 + 1);
    r.receive_audio_at(newer, None);
    assert_eq!(r.current_session(), Some(SessionId(SID.0 + 1)));
    r.receive_audio_at(audio(20, 1_000_000, 0), None);
    assert_eq!(r.current_session(), Some(SessionId(SID.0 + 1)));
}
