use bark::node::{as_fixed, NodeStats};
use bark::report::{parse_stats_payload, receiver_fields, stats_payload, ReceiverStats, RECEIVER_STATS_SIZE};
use bark::status::{LatencySample, Status, StreamStatus};
use bark::time::{SampleDuration, Timestamp};

fn sample() -> ReceiverStats {
    ReceiverStats {
        stream: Some(StreamStatus::Slew),
        audio_latency: Some(-1500),
        buffer_length: Some(10_000),
        network_latency: None,
        predict_offset: Some(i64::MIN),
    }
}

#[test]
fn reports_round_trip() {
    let s = sample();
    let bytes = s.to_bytes();
    assert_eq!(bytes.len(), RECEIVER_STATS_SIZE);
    assert_eq!(&bytes[0..8], &[3, 1, 1, 0, 1, 0, 0, 0]);
    assert_eq!(&bytes[8..16], &(-1500i64).to_le_bytes());
    assert_eq!(ReceiverStats::from_bytes(&bytes), Some(s));
    assert_eq!(ReceiverStats::from_bytes(&ReceiverStats::none().to_bytes()), Some(ReceiverStats::none()));
}

#[test]
fn malformed_reports_are_refused() {
    let mut bytes = sample().to_bytes();
    bytes[0] = 5;
    assert_eq!(ReceiverStats::from_bytes(&bytes), None);
    let mut bytes = sample().to_bytes();
    bytes[3] = 2;
    assert_eq!(ReceiverStats::from_bytes(&bytes), None);
    assert_eq!(ReceiverStats::from_bytes(&[0; 39]), None);
}

#[test]
fn payloads_carry_report_and_node() {
    let node = NodeStats { username: as_fixed("eve"), hostname: as_fixed("attic") };
    let payload = stats_payload(&sample(), &node);
    assert_eq!(payload.len(), 104);
    assert_eq!(parse_stats_payload(&payload), Some((sample(), node)));
    assert_eq!(parse_stats_payload(&payload[..103]), None);
}

#[test]
fn reports_from_status() {
    let mut status = Status::new();
    status.set_stream(StreamStatus::Sync);
    status.record_audio_latency(Timestamp(48_000), Timestamp(47_952));
    status.record_buffer_length(SampleDuration(96));
    status.record_network_latency(700);
    let r = ReceiverStats::from_status(&status, true);
    assert_eq!(
        r,
        ReceiverStats {
            stream: Some(StreamStatus::Sync),
            audio_latency: Some(-1000),
            buffer_length: Some(2000),
            network_latency: Some(700),
            predict_offset: None,
        }
    );
    assert_eq!(ReceiverStats::from_status(&status, false).stream, None);
    assert_eq!(status.audio_latency, Some(LatencySample { request_pts: Timestamp(48_000), packet_pts: Timestamp(47_952) }));
}

#[test]
fn receiver_row_fields() {
    assert_eq!(
        receiver_fields(&sample()),
        "  Audio:[  -1.500 ms]  Buffer:[  10.000 ms]  Network:[        ms]  Predict:[-9223372036854775.808 ms]"
    );
}
