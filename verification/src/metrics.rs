use vstd::prelude::*;
use vstd::string::*;

use crate::time::{SampleDuration, TimestampDelta};
use crate::value::{counter_text, gauge_text, Counter, Gauge, Micros};

verus! {

/// The metrics a receiver exports.
pub struct ReceiverMetricsData {
    pub audio_offset: Gauge<Option<TimestampDelta>>,
    pub buffer_delay: Gauge<SampleDuration>,
    pub buffer_underruns: Counter,
    pub queued_packets: Gauge<usize>,
    pub network_latency: Gauge<Micros>,
    pub packets_received: Counter,
    pub packets_lost: Counter,
    pub packets_missed: Counter,
    pub frames_decoded: Counter,
    pub frames_played: Counter,
}

impl ReceiverMetricsData {
    /// Every metric under its exported name, the counters at zero and the
    /// gauges without observation.
    pub fn new() -> (r: Self)
        ensures
            r.audio_offset.name()@ == "bark_receiver_audio_offset_usec"@,
            r.buffer_delay.name()@ == "bark_receiver_buffer_delay_usec"@,
            r.buffer_underruns.name()@ == "bark_receiver_buffer_underruns"@,
            r.network_latency.name()@ == "bark_receiver_network_latency_usec"@,
            r.queued_packets.name()@ == "bark_receiver_queued_packet_count"@,
            r.packets_received.name()@ == "bark_receiver_packets_received"@,
            r.packets_lost.name()@ == "bark_receiver_packets_lost"@,
            r.packets_missed.name()@ == "bark_receiver_packets_missed"@,
            r.frames_decoded.name()@ == "bark_receiver_frames_decoded"@,
            r.frames_played.name()@ == "bark_receiver_frames_played"@,
            r.audio_offset.reading() is None,
            r.buffer_delay.reading() is None,
            r.network_latency.reading() is None,
            r.queued_packets.reading() is None,
            r.buffer_underruns.value() == 0,
            r.packets_received.value() == 0,
            r.packets_lost.value() == 0,
            r.packets_missed.value() == 0,
            r.frames_decoded.value() == 0,
            r.frames_played.value() == 0,
    {
        ReceiverMetricsData {
            audio_offset: Gauge::new("bark_receiver_audio_offset_usec"),
            buffer_delay: Gauge::new("bark_receiver_buffer_delay_usec"),
            buffer_underruns: Counter::new("bark_receiver_buffer_underruns"),
            network_latency: Gauge::new("bark_receiver_network_latency_usec"),
            queued_packets: Gauge::new("bark_receiver_queued_packet_count"),
            packets_received: Counter::new("bark_receiver_packets_received"),
            packets_lost: Counter::new("bark_receiver_packets_lost"),
            packets_missed: Counter::new("bark_receiver_packets_missed"),
            frames_decoded: Counter::new("bark_receiver_frames_decoded"),
            frames_played: Counter::new("bark_receiver_frames_played"),
        }
    }
}

/// The metrics a stream source exports: none yet.
pub struct SourceMetricsData {}

impl SourceMetricsData {
    /// The (empty) source metrics.
    pub fn new() -> (r: Self)
        ensures
            r == (SourceMetricsData {}),
    {
        SourceMetricsData {}
    }
}

/// The exposition text of every receiver metric, in the order they are
/// served.
pub open spec fn receiver_metrics_text(m: &ReceiverMetricsData) -> Seq<char> {
    gauge_text(m.audio_offset.name()@, m.audio_offset.reading()) + gauge_text(
        m.buffer_delay.name()@,
        m.buffer_delay.reading(),
    ) + counter_text(m.buffer_underruns.name()@, m.buffer_underruns.value()) + gauge_text(
        m.network_latency.name()@,
        m.network_latency.reading(),
    ) + gauge_text(m.queued_packets.name()@, m.queued_packets.reading()) + counter_text(
        m.packets_received.name()@,
        m.packets_received.value(),
    ) + counter_text(m.packets_lost.name()@, m.packets_lost.value()) + counter_text(
        m.packets_missed.name()@,
        m.packets_missed.value(),
    ) + counter_text(m.frames_decoded.name()@, m.frames_decoded.value()) + counter_text(
        m.frames_played.name()@,
        m.frames_played.value(),
    )
}

/// The body of the metrics page of a receiver.
pub fn render_receiver_metrics(metrics: &ReceiverMetricsData) -> (r: String)
    ensures
        r@ == receiver_metrics_text(metrics),
{
    let mut buffer = String::new();
    buffer.append(metrics.audio_offset.render().as_str());
    buffer.append(metrics.buffer_delay.render().as_str());
    buffer.append(metrics.buffer_underruns.render().as_str());
    buffer.append(metrics.network_latency.render().as_str());
    buffer.append(metrics.queued_packets.render().as_str());
    buffer.append(metrics.packets_received.render().as_str());
    buffer.append(metrics.packets_lost.render().as_str());
    buffer.append(metrics.packets_missed.render().as_str());
    buffer.append(metrics.frames_decoded.render().as_str());
    buffer.append(metrics.frames_played.render().as_str());
    assert(buffer@ =~= receiver_metrics_text(metrics));
    buffer
}

/// The body of the metrics page of a stream source, which exports nothing.
pub fn render_source_metrics(metrics: &SourceMetricsData) -> (r: String)
    ensures
        r@ == Seq::<char>::empty(),
{
    String::new()
}

} // verus!
