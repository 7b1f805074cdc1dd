use bark::metrics::{render_receiver_metrics, render_source_metrics, ReceiverMetricsData, SourceMetricsData};
use bark::text::{push_decimal, push_ms, push_signed_decimal, push_time_field};
use bark::time::{SampleDuration, TimestampDelta};
use bark::value::{Counter, Gauge, GaugeValue, Micros, GAUGE_NO_VALUE};

#[test]
fn decimal_text() {
    let mut s = String::new();
    push_decimal(&mut s, 0);
    s.push(' ');
    push_decimal(&mut s, 1234567890);
    s.push(' ');
    push_decimal(&mut s, u64::MAX);
    s.push(' ');
    push_signed_decimal(&mut s, -42);
    s.push(' ');
    push_signed_decimal(&mut s, i64::MIN);
    assert_eq!(s, format!("0 1234567890 {} -42 {}", u64::MAX, i64::MIN));
}

#[test]
fn milliseconds_text_matches_float_formatting() {
    for micros in [0i128, 1, 999, 1000, 1500, -1500, -5, 123_456_789, -99_999_999, 12_345] {
        let mut s = String::new();
        push_ms(&mut s, micros);
        let expected = format!("{:>8.3}", micros as f64 / 1000.0);
        assert_eq!(s, expected, "for {micros} microseconds");
    }
}

#[test]
fn time_fields() {
    let mut s = String::new();
    push_time_field(&mut s, "Audio", Some(2500));
    push_time_field(&mut s, "Buffer", None);
    assert_eq!(s, "  Audio:[   2.500 ms]  Buffer:[        ms]");
}

#[test]
fn counter_counts_and_wraps() {
    let mut c = Counter::new("bark_test_counter");
    assert_eq!(c.get(), 0);
    c.increment();
    c.add(41);
    assert_eq!(c.get(), 42);
    assert_eq!(c.render(), "# TYPE bark_test_counter counter\nbark_test_counter 42\n\n");
    c.add(usize::MAX);
    // wraps modulo 2^64 on a 64-bit machine
    assert_eq!(c.get(), 42u64.wrapping_add(usize::MAX as u64));
}

#[test]
fn gauge_reports_its_last_observation() {
    let mut g: Gauge<usize> = Gauge::new("bark_test_gauge");
    assert_eq!(g.get(), None);
    assert_eq!(g.render(), "");
    g.observe(17);
    assert_eq!(g.get(), Some(17));
    assert_eq!(g.render(), "# TYPE bark_test_gauge gauge\nbark_test_gauge 17");
    g.observe(usize::MAX);
    assert_eq!(g.get(), None);
}

#[test]
fn gauge_values() {
    assert_eq!(Some(5usize).to_i64(), 5);
    assert_eq!(None::<usize>.to_i64(), GAUGE_NO_VALUE);
    assert_eq!(TimestampDelta(-48).to_i64(), -1000);
    assert_eq!(Some(TimestampDelta(96)).to_i64(), 2000);
    assert_eq!(SampleDuration(48_000).to_i64(), 1_000_000);
    assert_eq!(SampleDuration(u64::MAX).to_i64(), GAUGE_NO_VALUE);
    assert_eq!(Micros(1_501).to_i64(), 1_501);
    assert_eq!(Micros(u64::MAX).to_i64(), GAUGE_NO_VALUE);

    let mut g: Gauge<Option<TimestampDelta>> = Gauge::new("offset");
    g.observe(Some(TimestampDelta(-1)));
    assert_eq!(g.render(), "# TYPE offset gauge\noffset -20");
    g.observe(None);
    assert_eq!(g.get(), None);
}

#[test]
fn receiver_metrics_page() {
    let mut m = ReceiverMetricsData::new();
    m.packets_received.add(3);
    m.buffer_delay.observe(SampleDuration(480));
    m.network_latency.observe(Micros(1_501));
    let page = render_receiver_metrics(&m);
    assert!(page.contains(
        "# TYPE bark_receiver_network_latency_usec gauge\nbark_receiver_network_latency_usec 1501"
    ));
    assert!(page.starts_with(
        "# TYPE bark_receiver_buffer_delay_usec gauge\nbark_receiver_buffer_delay_usec 10000"
    ));
    assert!(page.contains("# TYPE bark_receiver_buffer_underruns counter\nbark_receiver_buffer_underruns 0\n\n"));
    assert!(page.contains("bark_receiver_packets_received 3\n\n"));
    assert!(page.ends_with("bark_receiver_frames_played 0\n\n"));
    assert!(!page.contains("audio_offset"));
}

#[test]
fn source_metrics_page_is_empty() {
    assert_eq!(render_source_metrics(&SourceMetricsData::new()), "");
}
