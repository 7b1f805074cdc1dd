use bark::status::{LatencySample, Status, StreamStatus, TermColor, TextStyle};
use bark::time::{SampleDuration, Timestamp};

#[test]
fn status_labels_and_colours() {
    assert_eq!(StreamStatus::Seek.text(), "SEEK");
    assert_eq!(StreamStatus::Sync.text(), "SYNC");
    assert_eq!(StreamStatus::Slew.text(), "SLEW");
    assert_eq!(StreamStatus::Miss.text(), "MISS");
    assert_eq!(StreamStatus::Seek.color(), TextStyle { dimmed: true, ..TextStyle::plain() });
    let sync = StreamStatus::Sync.color();
    assert_eq!(sync.bg, Some(TermColor::Green));
    assert_eq!(sync.fg, Some(TermColor::Rgb(0, 0, 0)));
    assert_eq!(StreamStatus::Slew.color().bg, Some(TermColor::Yellow));
    assert_eq!(StreamStatus::Miss.color().bg, Some(TermColor::Red));
}

#[test]
fn a_new_status_shows_blank_fields() {
    let s = Status::new();
    assert_eq!(s.stream, StreamStatus::Seek);
    assert_eq!(
        s.render_fields(),
        "  Audio:[        ms]  Buffer:[        ms]  Network:[        ms]  Predict:[        ms]  Clock:[        ms] "
    );
}

#[test]
fn recorded_measurements_show_in_milliseconds() {
    let mut s = Status::new();
    s.record_audio_latency(Timestamp(48_000), Timestamp(48_096));
    s.record_buffer_length(SampleDuration(480));
    s.record_network_latency(1_250);
    s.record_dts_prediction_difference(-300);
    s.record_clock_delta(123_456);
    assert_eq!(s.audio_latency, Some(LatencySample { request_pts: Timestamp(48_000), packet_pts: Timestamp(48_096) }));
    assert_eq!(
        s.render_fields(),
        "  Audio:[   2.000 ms]  Buffer:[  10.000 ms]  Network:[   1.250 ms]  Predict:[  -0.300 ms]  Clock:[ 123.456 ms] "
    );
}

#[test]
fn clearing_the_stream_keeps_the_prediction() {
    let mut s = Status::new();
    s.set_stream(StreamStatus::Sync);
    s.record_network_latency(5);
    s.record_dts_prediction_difference(7);
    s.clear_stream();
    assert_eq!(s.stream, StreamStatus::Seek);
    assert_eq!(s.network_latency_micros, None);
    assert_eq!(s.predict_micros, Some(7));
}

#[test]
fn rendering_is_rate_limited() {
    let mut s = Status::new();
    assert!(s.render(1_000).is_some());
    assert_eq!(s.last_render, Some(1_000));
    assert!(s.render(40_000).is_none());
    assert_eq!(s.last_render, Some(1_000));
    assert!(s.render(51_000).is_some());
    assert!(s.render(51_001).is_none());
    // a clock that went backwards does not redraw
    assert!(s.render(10).is_none());
    assert_eq!(s.last_render, Some(51_000));
}

#[test]
fn a_drawn_line_shows_the_label_in_its_style() {
    let mut s = Status::new();
    s.set_stream(StreamStatus::Slew);
    s.record_network_latency(1_250);
    let line = s.render(7).unwrap();
    assert_eq!(line.label, "  SLEW  ");
    assert_eq!(line.style, StreamStatus::Slew.color());
    assert_eq!(
        line.fields,
        "  Audio:[        ms]  Buffer:[        ms]  Network:[   1.250 ms]  Predict:[        ms]  Clock:[        ms] "
    );
}
