use bark::encode::{Encode, StreamHeader, F32};
use bark::protocol::{SessionId, TimestampMicros, MAGIC_AUDIO, SAMPLES_PER_PACKET};
use bark::time::Timestamp;

fn ramp(start: u32, n: usize) -> Vec<u32> {
    (0..n as u32).map(|i| start + i).collect()
}

#[test]
fn full_packets_are_numbered_and_stamped() {
    let mut enc = Encode::new(SessionId(11));
    // two and a half packets' worth in one write
    let data = ramp(0, 800);
    let bufs = enc.write_buffers(Timestamp(1000), &data);
    assert_eq!(bufs.len(), 2);
    assert_eq!(bufs[0].header, StreamHeader { sid: SessionId(11), seq: 0, pts: Timestamp(1000) });
    assert_eq!(bufs[1].header, StreamHeader { sid: SessionId(11), seq: 1, pts: Timestamp(1160) });
    assert_eq!(bufs[0].samples, ramp(0, 320));
    assert_eq!(bufs[1].samples, ramp(320, 320));

    // the rest completes with the next write, stamped with its first frame
    let more = ramp(800, 160);
    let bufs = enc.write_buffers(Timestamp(1400), &more);
    assert_eq!(bufs.len(), 1);
    assert_eq!(bufs[0].header, StreamHeader { sid: SessionId(11), seq: 2, pts: Timestamp(1320) });
    let mut expected = ramp(640, 160);
    expected.extend(ramp(800, 160));
    assert_eq!(bufs[0].samples, expected);
}

#[test]
fn splitting_the_input_does_not_change_the_packets() {
    let data = ramp(100, 1000);
    let mut whole = Encode::new(SessionId(1));
    let a = whole.write_buffers(Timestamp(0), &data);

    let mut parts = Encode::new(SessionId(1));
    let mut b = Vec::new();
    let mut pts = 0u64;
    for chunk in data.chunks(46) {
        b.extend(parts.write_buffers(Timestamp(pts), chunk));
        pts += chunk.len() as u64 / 2;
    }
    assert_eq!(a, b);
}

#[test]
fn small_writes_complete_nothing_until_full() {
    let mut enc = Encode::new(SessionId(1));
    assert!(enc.write_buffers(Timestamp(5), &ramp(0, 100)).is_empty());
    assert!(enc.write_buffers(Timestamp(55), &ramp(100, 100)).is_empty());
    let bufs = enc.write_buffers(Timestamp(105), &ramp(200, 120));
    assert_eq!(bufs.len(), 1);
    assert_eq!(bufs[0].header.pts, Timestamp(5));
    assert_eq!(bufs[0].samples, ramp(0, 320));
    // nothing written: nothing completes
    assert!(enc.write_buffers(Timestamp(500), &[]).is_empty());
}

#[test]
fn f32_encoding_fills_the_packet() {
    let header = StreamHeader { sid: SessionId(4), seq: 9, pts: Timestamp(48_000) };
    let data = ramp(7, SAMPLES_PER_PACKET);
    let p = F32.encode_at(&header, &data, TimestampMicros(555));
    assert_eq!(p.magic, MAGIC_AUDIO);
    assert_eq!(p.flags, 0);
    assert_eq!(p.sid, SessionId(4));
    assert_eq!(p.seq, 9);
    assert_eq!(p.pts, TimestampMicros(1_000_000));
    assert_eq!(p.dts, TimestampMicros(555));
    assert_eq!(p.buffer.0, data);

    let q = F32.encode(&header, &data).expect("clock readable");
    assert_eq!(q.pts, TimestampMicros(1_000_000));
    assert!(q.dts.0 > 1_577_836_800_000_000);
}

#[test]
fn write_sends_stamped_packets() {
    let mut enc = Encode::new(SessionId(2));
    let packets = enc.write(Timestamp(480), &ramp(0, 640));
    assert_eq!(packets.len(), 2);
    assert_eq!(packets[0].seq, 0);
    assert_eq!(packets[1].seq, 1);
    assert_eq!(packets[0].pts, TimestampMicros(10_000));
    assert_eq!(packets[1].pts, TimestampMicros(13_333));
    assert_eq!(packets[1].buffer.0, ramp(320, 320));
}

#[test]
fn try_write_refuses_what_the_encoder_cannot_take() {
    let mut enc = Encode::new(SessionId(3));
    // half a frame
    assert!(enc.try_write(Timestamp(0), &ramp(0, 3)).is_none());
    // the last frame's timestamp overflows
    assert!(enc.try_write(Timestamp(u64::MAX - 1), &ramp(0, 8)).is_none());
    // the last frame's time in microseconds overflows
    assert!(enc.try_write(Timestamp(u64::MAX / 10), &ramp(0, 2)).is_none());
    // nothing was buffered by the refused writes
    assert_eq!(enc.buffered_samples(), 0);
    assert_eq!(enc.next_seq(), 0);

    let packets = enc.try_write(Timestamp(480), &ramp(0, 700)).expect("in range");
    assert_eq!(packets.len(), 2);
    assert_eq!(packets[1].seq, 1);
    assert_eq!(packets[1].pts, TimestampMicros(13_333));
    assert_eq!(enc.buffered_samples(), 60);
    assert_eq!(enc.start_pts(), Some(Timestamp(800)));
}
