use bark::protocol::TimestampMicros;
use bark::time::{SampleDuration, Timestamp, TimestampDelta};

#[test]
fn one_second_of_micros_is_a_second_of_frames() {
    assert_eq!(Timestamp::from_micros_lossy(TimestampMicros(1_000_000)), Timestamp(48_000));
    assert_eq!(Timestamp(48_000).to_micros_lossy(), TimestampMicros(1_000_000));
}

#[test]
fn micros_to_frames_rounds_down() {
    // one frame lasts 20.83 microseconds
    assert_eq!(Timestamp::from_micros_lossy(TimestampMicros(20)), Timestamp(0));
    assert_eq!(Timestamp::from_micros_lossy(TimestampMicros(21)), Timestamp(1));
    assert_eq!(Timestamp(1).to_micros_lossy(), TimestampMicros(20));
}

#[test]
fn micros_round_trip_loses_at_most_one_frame() {
    for frames in [0u64, 1, 2, 47, 48, 1000, 123_456_789] {
        let back = Timestamp::from_micros_lossy(Timestamp(frames).to_micros_lossy());
        assert!(back.0 == frames || back.0 + 1 == frames, "frames {frames} came back as {}", back.0);
    }
}

#[test]
fn frames_round_trip_stays_within_a_frame() {
    for micros in [0u64, 1, 21, 999, 1_000_000, 1_700_000_000_123_456] {
        let back = Timestamp::from_micros_lossy(TimestampMicros(micros)).to_micros_lossy().0;
        assert!(back <= micros && micros - back < 22, "{micros} came back as {back}");
    }
}

#[test]
fn timestamp_arithmetic() {
    let t = Timestamp(1000);
    let d = SampleDuration::from_sample_count(160);
    assert_eq!(t.add(d), Timestamp(1160));
    assert_eq!(t.sub(d), Timestamp(840));
    assert_eq!(t.add(d).duration_since(t), d);
    assert_eq!(t.saturating_sub(SampleDuration(5000)), Timestamp(0));
    assert_eq!(Timestamp(10).delta(Timestamp(25)), TimestampDelta(-15));
    assert_eq!(Timestamp(25).delta(Timestamp(10)), TimestampDelta(15));
}

#[test]
fn timestamp_adjust_stays_in_range() {
    assert_eq!(Timestamp(100).adjust(TimestampDelta(-40)), Some(Timestamp(60)));
    assert_eq!(Timestamp(100).adjust(TimestampDelta(-101)), None);
    assert_eq!(Timestamp(u64::MAX - 1).adjust(TimestampDelta(2)), None);
    assert_eq!(Timestamp(5).adjust(TimestampDelta(7)), Some(Timestamp(12)));
}

#[test]
fn timestamp_now_is_after_2020() {
    let now = Timestamp::now().expect("clock readable");
    // 2020-01-01 in frames
    assert!(now.0 > 1_577_836_800u64 * 48_000);
}

#[test]
fn delta_conversions() {
    assert_eq!(TimestampDelta::zero(), TimestampDelta(0));
    assert_eq!(TimestampDelta(-48).abs(), SampleDuration(48));
    assert_eq!(TimestampDelta(48).to_micros_lossy(), 1000);
    assert_eq!(TimestampDelta(-48).to_micros_lossy(), -1000);
    assert_eq!(TimestampDelta(-1).to_micros_lossy(), -20);
    assert_eq!(TimestampDelta::from_micros_lossy(-1000), TimestampDelta(-48));
    assert_eq!(TimestampDelta::from_micros_lossy(30), TimestampDelta(1));
    assert_eq!(TimestampDelta(-3).as_frames(), -3);
}

#[test]
fn sample_duration_conversions() {
    assert_eq!(SampleDuration::zero(), SampleDuration(0));
    assert_eq!(SampleDuration::one_packet(), SampleDuration(160));
    assert_eq!(SampleDuration::from_std_duration_lossy(20_000), SampleDuration(960));
    assert_eq!(SampleDuration(960).to_std_duration_lossy(), 20_000);
    assert_eq!(SampleDuration(1).to_micros_lossy(), 20);
    assert_eq!(SampleDuration(160).mul(3), SampleDuration(480));
    assert_eq!(SampleDuration(160).add(SampleDuration(40)), SampleDuration(200));
    assert_eq!(SampleDuration(160).sub(SampleDuration(40)), SampleDuration(120));
}

#[test]
fn buffer_offsets_count_interleaved_samples() {
    assert_eq!(SampleDuration(160).as_buffer_offset(), 320);
    assert_eq!(SampleDuration::from_buffer_offset(320), SampleDuration(160));
    assert_eq!(SampleDuration::from_buffer_offset(SampleDuration(77).as_buffer_offset()), SampleDuration(77));
}
