use vstd::prelude::*;

use crate::protocol::{SessionId, TimestampMicros};

verus! {

/// How long a stream stays current after its last packet, in
/// microseconds.
pub const STREAM_TIMEOUT_MICROS: u64 = 100_000;

/// What a receiver keeps of the stream it follows to decide whether
/// another stream takes over: its session, its priority and when its last
/// packet came in.
#[derive(Debug, Clone, Copy, PartialEq, Eq)]
pub struct CurrentStream {
    pub sid: SessionId,
    pub priority: i8,
    pub received_last_packet: TimestampMicros,
}

/// Whether a stream whose last packet came in at `last` is still current
/// at `now`: it is while that packet is less than `STREAM_TIMEOUT_MICROS`
/// old (the timeout counted back from `now` stopping at zero).
pub open spec fn active_at(last: u64, now: u64) -> bool {
    last > (if now >= STREAM_TIMEOUT_MICROS {
        now - STREAM_TIMEOUT_MICROS
    } else {
        0
    })
}

/// Whether a stream of priority `priority` and session `sid` ranks above
/// one of priority `cur_priority` and session `cur_sid`: a higher
/// priority wins, and between equal priorities the later session.
pub open spec fn outranks(priority: i8, sid: i64, cur_priority: i8, cur_sid: i64) -> bool {
    priority > cur_priority || (priority == cur_priority && sid > cur_sid)
}

/// Whether a packet of session `sid` with priority `priority`, received at
/// `now`, starts a new stream in place of `current`: when no stream is
/// current, or the current one has timed out, or the packet's stream
/// outranks it.
pub open spec fn takes_over(
    current: Option<CurrentStream>,
    sid: SessionId,
    priority: i8,
    now: u64,
) -> bool {
    match current {
        None => true,
        Some(c) => !active_at(c.received_last_packet.0, now) || outranks(
            priority,
            sid.0,
            c.priority,
            c.sid.0,
        ),
    }
}

impl CurrentStream {
    /// Whether this stream is still current at `now`.
    pub fn is_active(&self, now: TimestampMicros) -> (r: bool)
        ensures
            r == active_at(self.received_last_packet.0, now.0),
    {
        let since = if now.0 >= STREAM_TIMEOUT_MICROS {
            now.0 - STREAM_TIMEOUT_MICROS
        } else {
            0
        };
        self.received_last_packet.0 > since
    }
}

/// Whether a packet of session `sid` with priority `priority`, received at
/// `now`, starts a new stream in place of `current` (see `takes_over`).
pub fn new_stream_takes_over(
    current: &Option<CurrentStream>,
    sid: SessionId,
    priority: i8,
    now: TimestampMicros,
) -> (r: bool)
    ensures
        r == takes_over(*current, sid, priority, now.0),
{
    match current {
        Some(c) => {
            if c.is_active(now) {
                if priority > c.priority {
                    true
                } else if priority == c.priority {
                    sid.0 > c.sid.0
                } else {
                    false
                }
            } else {
                true
            }
        },
        None => true,
    }
}

/// Between two streams that are both current, at most one takes over from
/// the other, and the packets of the current stream never restart it.
pub proof fn lemma_takeover_one_way(a: CurrentStream, b: CurrentStream, now: u64)
    requires
        active_at(a.received_last_packet.0, now),
        active_at(b.received_last_packet.0, now),
    ensures
        !(takes_over(Some(a), b.sid, b.priority, now) && takes_over(
            Some(b),
            a.sid,
            a.priority,
            now,
        )),
        !takes_over(Some(a), a.sid, a.priority, now),
{
}

/// The ranking of streams is transitive: a stream that outranks one that
/// outranks a third outranks the third too.
pub proof fn lemma_outranks_transitive(
    p1: i8,
    s1: i64,
    p2: i8,
    s2: i64,
    p3: i8,
    s3: i64,
)
    requires
        outranks(p1, s1, p2, s2),
        outranks(p2, s2, p3, s3),
    ensures
        outranks(p1, s1, p3, s3),
{
}

} // verus!
