use vstd::prelude::*;

use crate::node::NodeStats;
use crate::report::{no_report, stats_payload, stats_payload_spec, ReceiverStats};
use crate::packet::{Packet, StatsReplyView};
use crate::protocol::{
    time_phase, ReceiverId, SessionId, StatsReplyFlags, StatsReplyPacket, StatsRequestPacket,
    TimePacket, TimePhase, TimestampMicros, MAGIC_STATS_REPLY, MAGIC_STATS_REQ, MAGIC_TIME,
};

verus! {

/// What the network side of a stream source does after a packet.
#[derive(Debug, Clone, PartialEq, Eq)]
pub enum SourceAction {
    /// Nothing.
    Ignore,
    /// Stops streaming: a newer stream has taken over.
    Exit,
    /// Sends this packet to the packet's sender.
    Reply(Packet),
}

/// The time packet a stream of session `sid` broadcasts at `now` to start
/// a time exchange with every receiver.
pub fn time_broadcast(sid: SessionId, now: TimestampMicros) -> (r: TimePacket)
    ensures
        r == (TimePacket {
            magic: MAGIC_TIME,
            flags: 0,
            sid: sid,
            rid: ReceiverId(0),
            stream_1: now,
            receive_2: TimestampMicros(0),
            stream_3: TimestampMicros(0),
        }),
        time_phase(r) == (if now.0 != 0 {
            Some(TimePhase::Broadcast)
        } else {
            None::<TimePhase>
        }),
{
    TimePacket {
        magic: MAGIC_TIME,
        flags: 0,
        sid,
        rid: ReceiverId::broadcast(),
        stream_1: now,
        receive_2: TimestampMicros(0),
        stream_3: TimestampMicros(0),
    }
}

/// The request every node answers with its statistics.
pub fn stats_request() -> (r: StatsRequestPacket)
    ensures
        r == (StatsRequestPacket { magic: MAGIC_STATS_REQ, flags: 0 }),
{
    StatsRequestPacket { magic: MAGIC_STATS_REQ, flags: 0 }
}

/// The statistics reply of the stream source of session `sid`, run on
/// `node`: an empty report, then its node statistics.
pub open spec fn source_stats_reply(sid: SessionId, node: NodeStats) -> StatsReplyView {
    StatsReplyView {
        magic: MAGIC_STATS_REPLY,
        flags: 0x02,
        sid: sid.0,
        payload: stats_payload_spec(no_report(), node),
    }
}

/// Whether `r` is what the stream source of session `sid`, run on `node`,
/// does with `packet` received at `now`: it gives way to audio of a newer
/// session, answers a receiver's reply in a time exchange of its own
/// session with its time, and answers a statistics request with its own;
/// it ignores everything else.
pub open spec fn source_handled(
    sid: SessionId,
    node: NodeStats,
    packet: Packet,
    now: Option<TimestampMicros>,
    r: SourceAction,
) -> bool {
    match packet {
        Packet::Audio(a) => r == (if a.sid.0 > sid.0 {
            SourceAction::Exit
        } else {
            SourceAction::Ignore
        }),
        Packet::Time(t) => if t.sid == sid && time_phase(t) == Some(TimePhase::ReceiverReply) {
            r == (match now {
                Some(n) => SourceAction::Reply(Packet::Time(TimePacket { stream_3: n, ..t })),
                None => SourceAction::Ignore,
            })
        } else {
            r == SourceAction::Ignore
        },
        Packet::StatsRequest(_) => r matches SourceAction::Reply(Packet::StatsReply(p)) && p@
            == source_stats_reply(sid, node),
        Packet::StatsReply(_) => r == SourceAction::Ignore,
    }
}

/// What the stream source of session `sid`, run on `node`, does with
/// `packet`, received at `now`.
pub fn handle_source_packet_at(
    sid: SessionId,
    node: &NodeStats,
    packet: Packet,
    now: Option<TimestampMicros>,
) -> (r: SourceAction)
    ensures
        source_handled(sid, *node, packet, now, r),
{
    match packet {
        Packet::Audio(a) => {
            // audio only arrives here when another stream is present: it
            // takes over if it is newer
            if a.sid.0 > sid.0 {
                SourceAction::Exit
            } else {
                SourceAction::Ignore
            }
        },
        Packet::Time(t) => {
            if t.sid.0 != sid.0 {
                return SourceAction::Ignore;
            }
            match t.phase() {
                Some(TimePhase::ReceiverReply) => match now {
                    Some(n) => SourceAction::Reply(Packet::Time(TimePacket { stream_3: n, ..t })),
                    None => SourceAction::Ignore,
                },
                _ => SourceAction::Ignore,
            }
        },
        Packet::StatsRequest(_) => {
            let reply = StatsReplyPacket {
                magic: MAGIC_STATS_REPLY,
                flags: StatsReplyFlags::is_stream(),
                sid,
                payload: stats_payload(&ReceiverStats::none(), node),
            };
            SourceAction::Reply(Packet::StatsReply(reply))
        },
        Packet::StatsReply(_) => SourceAction::Ignore,
    }
}

/// What the stream source of session `sid`, run on `node`, does with
/// `packet`, received now: `handle_source_packet_at` with the clock read at
/// the time of the call.
pub fn handle_source_packet(sid: SessionId, node: &NodeStats, packet: Packet) -> (r: SourceAction)
    ensures
        exists|now: Option<TimestampMicros>| source_handled(sid, *node, packet, now, r),
{
    let now = TimestampMicros::now();
    handle_source_packet_at(sid, node, packet, now)
}

} // verus!
