use bark::protocol::{SessionId, TimestampMicros};
use bark::takeover::{new_stream_takes_over, CurrentStream, STREAM_TIMEOUT_MICROS};

fn current(sid: i64, priority: i8, last: u64) -> Option<CurrentStream> {
    Some(CurrentStream { sid: SessionId(sid), priority, received_last_packet: TimestampMicros(last) })
}

#[test]
fn any_stream_starts_when_none_is_current() {
    assert!(new_stream_takes_over(&None, SessionId(5), -3, TimestampMicros(0)));
}

#[test]
fn higher_priority_then_later_session_takes_over() {
    let cur = current(100, 0, 1_000_000);
    let now = TimestampMicros(1_050_000);
    assert!(new_stream_takes_over(&cur, SessionId(50), 1, now));
    assert!(!new_stream_takes_over(&cur, SessionId(500), -1, now));
    assert!(new_stream_takes_over(&cur, SessionId(101), 0, now));
    assert!(!new_stream_takes_over(&cur, SessionId(99), 0, now));
    // the current stream's own packets do not restart it
    assert!(!new_stream_takes_over(&cur, SessionId(100), 0, now));
}

#[test]
fn a_silent_stream_times_out() {
    let cur = current(100, 5, 1_000_000);
    assert!(cur.unwrap().is_active(TimestampMicros(1_000_000 + STREAM_TIMEOUT_MICROS - 1)));
    assert!(!cur.unwrap().is_active(TimestampMicros(1_000_000 + STREAM_TIMEOUT_MICROS)));
    assert!(new_stream_takes_over(&cur, SessionId(1), 0, TimestampMicros(1_100_000)));
    // near the start of the clock the timeout stops at zero
    assert!(current(0, 0, 0).unwrap().is_active(TimestampMicros(50)) == false);
    assert!(current(0, 0, 1).unwrap().is_active(TimestampMicros(50)));
}
