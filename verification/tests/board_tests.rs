use bark::board::{calculate, indicator_style, BoardFrame, Padding, StatsBoard};
use bark::node::{as_fixed, NodeStats};
use bark::protocol::{SessionId, StatsReplyFlags, StatsReplyPacket, MAGIC_STATS_REPLY};
use bark::status::{StreamStatus, TermColor, TextStyle};

fn reply(receiver: bool, sid: i64) -> StatsReplyPacket {
    StatsReplyPacket {
        magic: MAGIC_STATS_REPLY,
        flags: if receiver { StatsReplyFlags::is_receiver() } else { StatsReplyFlags::is_stream() },
        sid: SessionId(sid),
        payload: vec![],
    }
}

fn peers(board: &StatsBoard) -> Vec<u64> {
    board.rows().iter().map(|e| e.peer).collect()
}

#[test]
fn sources_come_first_then_by_peer() {
    let mut board = StatsBoard::new();
    board.update(30, 0, reply(true, 1));
    board.update(10, 1, reply(true, 1));
    board.update(20, 2, reply(false, 1));
    board.update(5, 3, reply(true, 1));
    assert_eq!(peers(&board), vec![20, 5, 10, 30]);
}

#[test]
fn a_new_reply_replaces_the_old_one() {
    let mut board = StatsBoard::new();
    board.update(10, 0, reply(true, 1));
    let frame = board.update(10, 5, reply(false, 2));
    assert_eq!(frame, BoardFrame { previous_lines: 1, removed_lines: 0 });
    assert_eq!(board.rows().len(), 1);
    assert_eq!(board.rows()[0].time, 5);
    assert_eq!(board.rows()[0].reply.sid, SessionId(2));
}

#[test]
fn replies_expire_after_a_second() {
    let mut board = StatsBoard::new();
    board.update(1, 0, reply(true, 1));
    board.update(2, 500_000, reply(true, 1));
    let frame = board.update(3, 1_000_000, reply(true, 1));
    // the first reply is exactly a second old: gone
    assert_eq!(peers(&board), vec![2, 3]);
    assert_eq!(frame, BoardFrame { previous_lines: 2, removed_lines: 0 });
    let frame = board.update(3, 1_600_000, reply(true, 1));
    assert_eq!(peers(&board), vec![3]);
    assert_eq!(frame, BoardFrame { previous_lines: 2, removed_lines: 1 });
}

#[test]
fn padding_widens_to_the_widest_row() {
    let node = NodeStats { username: as_fixed("ann"), hostname: as_fixed("box") };
    let mut padding = Padding::default();
    calculate(&mut padding, &node, "10.0.0.1:1530");
    assert_eq!(padding, Padding { node_width: 7, addr_width: 13 });
    let long = NodeStats { username: as_fixed("someone"), hostname: as_fixed("machine") };
    calculate(&mut padding, &long, "10.0.0.2:1");
    // the address column follows the node column once that is wider
    assert_eq!(padding, Padding { node_width: 15, addr_width: 15 });
}

#[test]
fn indicator_styles() {
    let (style, text) = indicator_style(None);
    assert_eq!(style, TextStyle::plain());
    assert_eq!(text, "    ");
    let (style, text) = indicator_style(Some(StreamStatus::Miss));
    assert_eq!(text, "MISS");
    assert_eq!(style.bg, Some(TermColor::Red));
    assert_eq!(style.fg, Some(TermColor::Rgb(0, 0, 0)));
    assert!(style.bold && style.intense && !style.dimmed);
    let (style, text) = indicator_style(Some(StreamStatus::Seek));
    assert_eq!(text, "SEEK");
    assert!(style.dimmed);
    assert_eq!(style.bg, None);
}
