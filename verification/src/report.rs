use vstd::prelude::*;
use vstd::bytes::*;
use vstd::string::*;

use crate::node::{node_bytes, node_bytes_spec, node_from_bytes, NodeStats, NODE_FIELD_SIZE};
use crate::packet::{i64_at, i64_le, lemma_i64_bits, read_i64, write_i64};
use crate::status::{Status, StreamStatus};
use crate::text::{push_time_field, time_field_text};
use crate::time::frames_to_micros;

verus! {

broadcast use vstd::seq_lib::group_seq_properties;

/// What a receiver reports about the stream it plays, as the statistics
/// view shows it: the stream status while it follows a stream, and each
/// timing in microseconds once measured.
#[derive(Debug, Clone, Copy, PartialEq, Eq)]
pub struct ReceiverStats {
    pub stream: Option<StreamStatus>,
    pub audio_latency: Option<i64>,
    pub buffer_length: Option<i64>,
    pub network_latency: Option<i64>,
    pub predict_offset: Option<i64>,
}

/// Size on the wire of a receiver's report.
pub const RECEIVER_STATS_SIZE: usize = 40;

/// The byte that tells a reported stream status: zero for none.
pub open spec fn stream_code(s: Option<StreamStatus>) -> u8 {
    match s {
        None => 0,
        Some(StreamStatus::Seek) => 1,
        Some(StreamStatus::Sync) => 2,
        Some(StreamStatus::Slew) => 3,
        Some(StreamStatus::Miss) => 4,
    }
}

/// The stream status a byte tells, for a byte below five.
pub open spec fn stream_of_code(c: u8) -> Option<StreamStatus> {
    if c == 1 {
        Some(StreamStatus::Seek)
    } else if c == 2 {
        Some(StreamStatus::Sync)
    } else if c == 3 {
        Some(StreamStatus::Slew)
    } else if c == 4 {
        Some(StreamStatus::Miss)
    } else {
        None
    }
}

/// Whether a timing is present, as a byte.
pub open spec fn presence(o: Option<i64>) -> u8 {
    if o is Some {
        1
    } else {
        0
    }
}

/// A timing's value on the wire: zero when absent.
pub open spec fn value_of(o: Option<i64>) -> i64 {
    match o {
        Some(v) => v,
        None => 0,
    }
}

/// The timing that a presence byte and a value tell.
pub open spec fn timing_of(present: u8, v: i64) -> Option<i64> {
    if present == 1 {
        Some(v)
    } else {
        None
    }
}

/// The bytes of a receiver's report: the stream status byte, a presence
/// byte for each timing, three zero bytes, then the four timings as
/// little-endian `i64`.
pub open spec fn receiver_stats_bytes(s: ReceiverStats) -> Seq<u8> {
    seq![
        stream_code(s.stream),
        presence(s.audio_latency),
        presence(s.buffer_length),
        presence(s.network_latency),
        presence(s.predict_offset),
        0u8,
        0u8,
        0u8,
    ] + i64_le(value_of(s.audio_latency)) + i64_le(value_of(s.buffer_length)) + i64_le(
        value_of(s.network_latency),
    ) + i64_le(value_of(s.predict_offset))
}

/// The report that `b` holds, or `None` when `b` is not the size of one or
/// holds a status or presence byte out of range.
pub open spec fn decode_receiver_stats(b: Seq<u8>) -> Option<ReceiverStats> {
    if b.len() != RECEIVER_STATS_SIZE || b[0] > 4 || b[1] > 1 || b[2] > 1 || b[3] > 1 || b[4]
        > 1 {
        None
    } else {
        Some(
            ReceiverStats {
                stream: stream_of_code(b[0]),
                audio_latency: timing_of(b[1], i64_at(b, 8)),
                buffer_length: timing_of(b[2], i64_at(b, 16)),
                network_latency: timing_of(b[3], i64_at(b, 24)),
                predict_offset: timing_of(b[4], i64_at(b, 32)),
            },
        )
    }
}

/// A timing's presence byte.
fn presence_byte(o: Option<i64>) -> (r: u8)
    ensures
        r == presence(o),
{
    match o {
        Some(_) => 1,
        None => 0,
    }
}

/// A timing's value on the wire.
fn value_or_zero(o: Option<i64>) -> (r: i64)
    ensures
        r == value_of(o),
{
    match o {
        Some(v) => v,
        None => 0,
    }
}

/// A value in microseconds that fits in an `i64`, or `None`.
pub open spec fn fitting(m: Option<int>) -> Option<i64> {
    match m {
        Some(v) => if i64::MIN <= v <= i64::MAX {
            Some(v as i64)
        } else {
            None
        },
        None => None,
    }
}

/// The report of a receiver with the status `status`, following a stream
/// when `following`: the stream status only while following a stream, the
/// timings in microseconds where they fit in an `i64`.
pub open spec fn report_of(status: Status, following: bool) -> ReceiverStats {
    ReceiverStats {
        stream: if following {
            Some(status.stream)
        } else {
            None
        },
        audio_latency: fitting(status.audio_latency_micros()),
        buffer_length: fitting(status.buffer_micros()),
        network_latency: fitting(
            match status.network_latency_micros {
                Some(m) => Some(m as int),
                None => None,
            },
        ),
        predict_offset: status.predict_micros,
    }
}

/// The report of a node that follows no stream and has measured nothing.
pub open spec fn no_report() -> ReceiverStats {
    ReceiverStats {
        stream: None,
        audio_latency: None,
        buffer_length: None,
        network_latency: None,
        predict_offset: None,
    }
}

impl ReceiverStats {
    /// The report of a receiver with the status `status`, following a
    /// stream when `following`: the stream status only while following a
    /// stream, the audio latency and buffer length in microseconds where
    /// they fit in an `i64`, the network latency and prediction
    /// difference as recorded.
    pub fn from_status(status: &Status, following: bool) -> (r: ReceiverStats)
        ensures
            r == report_of(*status, following),
    {
        let audio = match status.audio_latency {
            Some(l) => {
                let packet = (l.packet_pts.0 as u128 * 1_000_000) / 48000;
                let request = (l.request_pts.0 as u128 * 1_000_000) / 48000;
                let m = packet as i128 - request as i128;
                if i64::MIN as i128 <= m && m <= i64::MAX as i128 {
                    Some(m as i64)
                } else {
                    None
                }
            },
            None => None,
        };
        let buffer = match status.buffer_length {
            Some(b) => {
                let m = (b.0 as u128 * 1_000_000) / 48000;
                if m <= i64::MAX as u128 {
                    Some(m as i64)
                } else {
                    None
                }
            },
            None => None,
        };
        let network = match status.network_latency_micros {
            Some(m) => if m <= i64::MAX as u64 {
                Some(m as i64)
            } else {
                None
            },
            None => None,
        };
        ReceiverStats {
            stream: if following {
                Some(status.stream)
            } else {
                None
            },
            audio_latency: audio,
            buffer_length: buffer,
            network_latency: network,
            predict_offset: status.predict_micros,
        }
    }

    /// The report of a node that follows no stream, as a stream source
    /// sends it.
    pub fn none() -> (r: ReceiverStats)
        ensures
            r == no_report(),
    {
        ReceiverStats {
            stream: None,
            audio_latency: None,
            buffer_length: None,
            network_latency: None,
            predict_offset: None,
        }
    }

    /// The bytes of this report.
    pub fn to_bytes(&self) -> (r: Vec<u8>)
        ensures
            r@ == receiver_stats_bytes(*self),
    {
        let code: u8 = match self.stream {
            None => 0,
            Some(StreamStatus::Seek) => 1,
            Some(StreamStatus::Sync) => 2,
            Some(StreamStatus::Slew) => 3,
            Some(StreamStatus::Miss) => 4,
        };
        let mut out: Vec<u8> = Vec::new();
        out.push(code);
        out.push(presence_byte(self.audio_latency));
        out.push(presence_byte(self.buffer_length));
        out.push(presence_byte(self.network_latency));
        out.push(presence_byte(self.predict_offset));
        out.push(0);
        out.push(0);
        out.push(0);
        write_i64(&mut out, value_or_zero(self.audio_latency));
        write_i64(&mut out, value_or_zero(self.buffer_length));
        write_i64(&mut out, value_or_zero(self.network_latency));
        write_i64(&mut out, value_or_zero(self.predict_offset));
        assert(out@ =~= receiver_stats_bytes(*self));
        out
    }

    /// The report `bytes` hold (see `decode_receiver_stats`).
    pub fn from_bytes(bytes: &[u8]) -> (r: Option<ReceiverStats>)
        ensures
            r == decode_receiver_stats(bytes@),
    {
        if bytes.len() != RECEIVER_STATS_SIZE || bytes[0] > 4 || bytes[1] > 1 || bytes[2] > 1
            || bytes[3] > 1 || bytes[4] > 1 {
            return None;
        }
        let stream = if bytes[0] == 1 {
            Some(StreamStatus::Seek)
        } else if bytes[0] == 2 {
            Some(StreamStatus::Sync)
        } else if bytes[0] == 3 {
            Some(StreamStatus::Slew)
        } else if bytes[0] == 4 {
            Some(StreamStatus::Miss)
        } else {
            None
        };
        let audio = read_i64(bytes, 8);
        let buffer = read_i64(bytes, 16);
        let network = read_i64(bytes, 24);
        let predict = read_i64(bytes, 32);
        Some(
            ReceiverStats {
                stream,
                audio_latency: if bytes[1] == 1 {
                    Some(audio)
                } else {
                    None
                },
                buffer_length: if bytes[2] == 1 {
                    Some(buffer)
                } else {
                    None
                },
                network_latency: if bytes[3] == 1 {
                    Some(network)
                } else {
                    None
                },
                predict_offset: if bytes[4] == 1 {
                    Some(predict)
                } else {
                    None
                },
            },
        )
    }
}

/// An `i64` read back from its little-endian bytes at `at` gives it back.
proof fn lemma_i64_at(raw: Seq<u8>, at: int, x: i64)
    requires
        0 <= at,
        at + 8 <= raw.len(),
        raw.subrange(at, at + 8) == i64_le(x),
    ensures
        i64_at(raw, at) == x,
{
    lemma_auto_spec_u64_to_from_le_bytes();
    lemma_i64_bits(x);
}

/// A report read back from its bytes is the report sent.
pub proof fn lemma_receiver_stats_round_trip(s: ReceiverStats)
    ensures
        decode_receiver_stats(receiver_stats_bytes(s)) == Some(s),
{
    let b = receiver_stats_bytes(s);
    lemma_auto_spec_u64_to_from_le_bytes();
    assert(b.len() == 40);
    assert(b.subrange(8, 16) =~= i64_le(value_of(s.audio_latency)));
    assert(b.subrange(16, 24) =~= i64_le(value_of(s.buffer_length)));
    assert(b.subrange(24, 32) =~= i64_le(value_of(s.network_latency)));
    assert(b.subrange(32, 40) =~= i64_le(value_of(s.predict_offset)));
    lemma_i64_at(b, 8, value_of(s.audio_latency));
    lemma_i64_at(b, 16, value_of(s.buffer_length));
    lemma_i64_at(b, 24, value_of(s.network_latency));
    lemma_i64_at(b, 32, value_of(s.predict_offset));
}

/// The payload of a statistics reply: the sender's report, then its node
/// statistics.
pub open spec fn stats_payload_spec(r: ReceiverStats, n: NodeStats) -> Seq<u8> {
    receiver_stats_bytes(r) + node_bytes_spec(n)
}

/// A payload read back gives the report and node statistics sent: its
/// parts are a valid report's bytes and the node's bytes, and node
/// statistics are told apart by their bytes.
pub proof fn lemma_stats_payload_round_trip(report: ReceiverStats, node: NodeStats, other: NodeStats)
    ensures
        stats_payload_spec(report, node).len() == RECEIVER_STATS_SIZE + 2 * NODE_FIELD_SIZE,
        decode_receiver_stats(
            stats_payload_spec(report, node).subrange(0, RECEIVER_STATS_SIZE as int),
        ) == Some(report),
        stats_payload_spec(report, node).subrange(
            RECEIVER_STATS_SIZE as int,
            (RECEIVER_STATS_SIZE + 2 * NODE_FIELD_SIZE) as int,
        ) == node_bytes_spec(node),
        node_bytes_spec(other) == node_bytes_spec(node) ==> other == node,
{
    let p = stats_payload_spec(report, node);
    lemma_receiver_stats_round_trip(report);
    assert(receiver_stats_bytes(report).len() == 40);
    assert(p.subrange(0, 40) =~= receiver_stats_bytes(report));
    assert(p.subrange(40, 104) =~= node_bytes_spec(node));
    if node_bytes_spec(other) == node_bytes_spec(node) {
        assert forall|i: int| 0 <= i < 32 implies other.username[i] == node.username[i] by {
            assert(node_bytes_spec(other)[i] == node_bytes_spec(node)[i]);
        }
        assert forall|i: int| 0 <= i < 32 implies other.hostname[i] == node.hostname[i] by {
            assert(node_bytes_spec(other)[32 + i] == node_bytes_spec(node)[32 + i]);
        }
        assert(other.username =~= node.username);
        assert(other.hostname =~= node.hostname);
    }
}

/// The payload of a statistics reply carrying `report` and `node`.
pub fn stats_payload(report: &ReceiverStats, node: &NodeStats) -> (r: Vec<u8>)
    ensures
        r@ == stats_payload_spec(*report, *node),
{
    let mut out = report.to_bytes();
    let mut n = node_bytes(node);
    out.append(&mut n);
    out
}

/// The report and node statistics a reply's payload carries, or `None`
/// when it carries no valid report or is not the size of both.
pub fn parse_stats_payload(payload: &[u8]) -> (r: Option<(ReceiverStats, NodeStats)>)
    ensures
        r is Some <==> payload@.len() == RECEIVER_STATS_SIZE + 2 * NODE_FIELD_SIZE
            && decode_receiver_stats(payload@.subrange(0, RECEIVER_STATS_SIZE as int)) is Some,
        r matches Some((report, node)) ==> {
            &&& decode_receiver_stats(payload@.subrange(0, RECEIVER_STATS_SIZE as int)) == Some(
                report,
            )
            &&& node_bytes_spec(node) == payload@.subrange(
                RECEIVER_STATS_SIZE as int,
                payload@.len() as int,
            )
        },
{
    if payload.len() != RECEIVER_STATS_SIZE + 2 * NODE_FIELD_SIZE {
        return None;
    }
    let head = vstd::slice::slice_subrange(payload, 0, RECEIVER_STATS_SIZE);
    let tail = vstd::slice::slice_subrange(payload, RECEIVER_STATS_SIZE, payload.len());
    match ReceiverStats::from_bytes(head) {
        Some(report) => match node_from_bytes(tail) {
            Some(node) => Some((report, node)),
            None => None,
        },
        None => None,
    }
}

/// The timing fields of a receiver's row in the statistics view.
pub open spec fn receiver_fields_text(s: ReceiverStats) -> Seq<char> {
    time_field_text(
        "Audio"@,
        match s.audio_latency {
            Some(m) => Some(m as int),
            None => None,
        },
    ) + time_field_text(
        "Buffer"@,
        match s.buffer_length {
            Some(m) => Some(m as int),
            None => None,
        },
    ) + time_field_text(
        "Network"@,
        match s.network_latency {
            Some(m) => Some(m as int),
            None => None,
        },
    ) + time_field_text(
        "Predict"@,
        match s.predict_offset {
            Some(m) => Some(m as int),
            None => None,
        },
    )
}

/// The timing fields of a receiver's row in the statistics view: audio
/// latency, buffer length, network latency and prediction difference, each
/// in milliseconds or blank when not measured.
pub fn receiver_fields(s: &ReceiverStats) -> (r: String)
    ensures
        r@ == receiver_fields_text(*s),
{
    let mut out = String::new();
    push_time_field(
        &mut out,
        "Audio",
        match s.audio_latency {
            Some(m) => Some(m as i128),
            None => None,
        },
    );
    push_time_field(
        &mut out,
        "Buffer",
        match s.buffer_length {
            Some(m) => Some(m as i128),
            None => None,
        },
    );
    push_time_field(
        &mut out,
        "Network",
        match s.network_latency {
            Some(m) => Some(m as i128),
            None => None,
        },
    );
    push_time_field(
        &mut out,
        "Predict",
        match s.predict_offset {
            Some(m) => Some(m as i128),
            None => None,
        },
    );
    assert(out@ =~= receiver_fields_text(*s));
    out
}

} // verus!
