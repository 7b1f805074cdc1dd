use bark::device::{
    config_for_device, default_buffer, default_period, device_opt, DecodeStats, StreamSettings,
    SupportedConfig,
};
use bark::receive::{RateAdjust, SampleRate, Timing};
use bark::ring::{
    channel_samples, copy_from_iter, render_from, Disconnected, Frame, FrameBuffer, WriteProgress,
};
use bark::status::StreamStatus;
use bark::time::{SampleDuration, Timestamp, TimestampDelta};

fn frames(start: u32, n: u32) -> Vec<Frame> {
    (start..start + n).map(|i| Frame(i, i + 1000)).collect()
}

#[test]
fn frame_buffer_is_first_in_first_out() {
    let mut b = FrameBuffer::new(4);
    assert_eq!(b.write(&frames(0, 3)), 3);
    assert_eq!(b.write(&frames(3, 3)), 1);
    assert_eq!(b.len(), 4);
    assert_eq!(b.delay(), SampleDuration(4));
    assert_eq!(b.read(2), frames(0, 2));
    assert_eq!(b.read(10), frames(2, 2));
    assert_eq!(b.read(1), vec![]);
}

#[test]
fn render_pads_with_silence_on_underrun() {
    let mut b = FrameBuffer::new(8);
    b.write(&frames(0, 3));
    let (out, underrun) = render_from(&mut b, 5);
    assert!(underrun);
    assert_eq!(&out[..3], &frames(0, 3)[..]);
    assert_eq!(&out[3..], &[Frame::zero(), Frame::zero()]);
    b.write(&frames(10, 4));
    let (out, underrun) = render_from(&mut b, 2);
    assert!(!underrun);
    assert_eq!(out, frames(10, 2));
    assert_eq!(b.len(), 2);
}

#[test]
fn channels_split_frames() {
    let f = frames(1, 3);
    assert_eq!(channel_samples(&f, 0), vec![1, 2, 3]);
    assert_eq!(channel_samples(&f, 1), vec![1001, 1002, 1003]);
    assert_eq!(channel_samples(&f, 2), vec![0, 0, 0]);
}

#[test]
fn copy_fills_the_slice() {
    let mut out = vec![0u32; 3];
    copy_from_iter(&mut out, &[7, 8, 9]);
    assert_eq!(out, vec![7, 8, 9]);
}

#[test]
fn disconnected_message() {
    assert_eq!(Disconnected.message(), "audio disconnected");
}

#[test]
fn device_defaults() {
    assert_eq!(default_period(), SampleDuration(120));
    assert_eq!(default_buffer(), SampleDuration(360));
    let opt = device_opt(None, Some(64), None);
    assert_eq!(opt.device, None);
    assert_eq!(opt.period, SampleDuration(64));
    assert_eq!(opt.buffer, SampleDuration(360));
}

#[test]
fn stream_configuration_choice() {
    let configs = [
        SupportedConfig { float_samples: false, channels: 2, min_buffer_size: Some(64) },
        SupportedConfig { float_samples: true, channels: 1, min_buffer_size: Some(64) },
        SupportedConfig { float_samples: true, channels: 2, min_buffer_size: Some(64) },
        SupportedConfig { float_samples: true, channels: 2, min_buffer_size: Some(512) },
    ];
    assert_eq!(
        config_for_device(&configs),
        Some(StreamSettings { channels: 2, sample_rate: 48000, buffer_size: 160 })
    );
    assert_eq!(
        config_for_device(&configs[3..]),
        Some(StreamSettings { channels: 2, sample_rate: 48000, buffer_size: 512 })
    );
    let unknown = [SupportedConfig { float_samples: true, channels: 2, min_buffer_size: None }];
    assert_eq!(config_for_device(&unknown).unwrap().buffer_size, 160);
    assert_eq!(config_for_device(&configs[..2]), None);
}

#[test]
fn decode_stats_follow_playback() {
    let mut stats = DecodeStats::default();
    assert_eq!(stats.status, StreamStatus::Seek);
    let mut rate = RateAdjust::new();
    // written at 1s, played 480 frames later; the stream wanted it at 48480
    let t = stats.observe_playback(&mut rate, 1_000_000, SampleDuration(480), Some(Timestamp(48_480)));
    assert_eq!(t, Some((Timing { real: Timestamp(48_480), play: Timestamp(48_480) }, SampleRate(48000))));
    assert_eq!(stats.status, StreamStatus::Sync);
    assert_eq!(stats.audio_latency, TimestampDelta(0));
    assert_eq!(stats.output_latency, SampleDuration(480));
    // a quarter second ahead: slew
    let t = stats.observe_playback(&mut rate, 1_000_000, SampleDuration(480), Some(Timestamp(36_480)));
    let (timing, rate_now) = t.unwrap();
    assert_eq!(timing.real, Timestamp(48_480));
    // twice the offset faster, up to double speed
    assert_eq!(rate_now, SampleRate(72_000));
    assert!(rate.slew());
    assert_eq!(stats.status, StreamStatus::Slew);
    assert_eq!(stats.audio_latency, TimestampDelta(12_000));
    // no stream timing: status kept
    assert_eq!(stats.observe_playback(&mut rate, 2_000_000, SampleDuration(0), None), None);
    assert_eq!(stats.status, StreamStatus::Slew);
    assert_eq!(stats.output_latency, SampleDuration(0));
}

#[test]
fn a_blocking_write_appends_all_its_frames_in_order() {
    let mut b = FrameBuffer::new(4);
    b.write(&frames(100, 1));
    let data = frames(0, 9);
    let mut played = Vec::new();
    let mut from = 0;
    let mut passes = 0;
    loop {
        passes += 1;
        match b.write_pass(&data, from, true) {
            Ok(WriteProgress::Done) => break,
            Ok(WriteProgress::Wait(next)) => {
                assert_eq!(b.len(), 4);
                from = next;
                played.extend(b.read(3));
            }
            Err(Disconnected) => panic!("the reader is there"),
        }
    }
    assert_eq!(passes, 3);
    played.extend(b.read(10));
    let mut expected = frames(100, 1);
    expected.extend(data);
    assert_eq!(played, expected);
}

#[test]
fn a_write_without_a_reader_fails_unless_there_is_nothing_to_write() {
    let mut b = FrameBuffer::new(4);
    assert_eq!(b.write_pass(&frames(0, 2), 0, false), Err(Disconnected));
    assert_eq!(b.len(), 0);
    assert_eq!(b.write_pass(&[], 0, false), Ok(WriteProgress::Done));
    assert_eq!(b.write_pass(&frames(0, 6), 0, true), Ok(WriteProgress::Wait(4)));
    assert_eq!(b.write_pass(&frames(0, 6), 4, true), Ok(WriteProgress::Wait(4)));
    assert_eq!(b.len(), 4);
}
