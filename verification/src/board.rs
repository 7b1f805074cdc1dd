use vstd::prelude::*;

use vstd::string::*;
use vstd::utf8::encode_utf8;
use vstd::math::max;

use crate::node::{display, display_text, NodeStats};
use crate::protocol::{StatsReplyFlags, StatsReplyPacket};
use crate::status::{status_style, StreamStatus, TextStyle};

verus! {

broadcast use vstd::seq_lib::group_seq_properties;

/// How long a node's last statistics reply stays on the board, in
/// microseconds.
pub const ENTRY_LIFETIME_MICROS: u64 = 1_000_000;

/// A node's last statistics reply, with the peer that sent it and when it
/// arrived (microseconds of a monotonic clock). A peer is an IPv4 address
/// and port packed as `address << 16 | port`, which orders peers by
/// address, then port.
#[derive(Debug, Clone, PartialEq, Eq)]
pub struct BoardEntry {
    pub peer: u64,
    pub time: u64,
    pub reply: StatsReplyPacket,
}

/// Whether a reply comes from a receiver.
pub open spec fn reply_is_receiver(reply: StatsReplyPacket) -> bool {
    reply.flags.0 & 0x01 == 0x01
}

/// The order of the board: stream sources before receivers, and within
/// each, by peer.
pub open spec fn entry_before(a: BoardEntry, b: BoardEntry) -> bool {
    ||| !reply_is_receiver(a.reply) && reply_is_receiver(b.reply)
    ||| reply_is_receiver(a.reply) == reply_is_receiver(b.reply) && a.peer < b.peer
}

/// Whether an entry is still shown at `now`: it arrived less than
/// `ENTRY_LIFETIME_MICROS` before (an arrival stamped later than `now`
/// counts as just now).
pub open spec fn entry_live(e: BoardEntry, now: u64) -> bool {
    if now >= e.time {
        now - e.time < ENTRY_LIFETIME_MICROS
    } else {
        true
    }
}

/// Whether `s` lists each peer at most once, in board order.
pub open spec fn board_ordered(s: Seq<BoardEntry>) -> bool {
    &&& forall|i: int, j: int| 0 <= i < j < s.len() ==> entry_before(#[trigger] s[i], #[trigger] s[j])
    &&& forall|i: int, j: int| 0 <= i < j < s.len() ==> (#[trigger] s[i]).peer != (#[trigger] s[j]).peer
}

/// The table the statistics view shows: the last reply of every node
/// heard from in the last second.
pub struct StatsBoard {
    entries: Vec<BoardEntry>,
}

/// What the screen needs after an update: how many lines the previous
/// drawing took, and how many of them are left over below the new one.
#[derive(Debug, Clone, Copy, PartialEq, Eq)]
pub struct BoardFrame {
    pub previous_lines: usize,
    pub removed_lines: usize,
}

/// Whether `new` is what the board `old` becomes when the entry `e`
/// arrives at `now`: in board order, showing `e`, and otherwise exactly
/// the entries of `old` from other peers that are still live.
pub open spec fn board_after(old: Seq<BoardEntry>, new: Seq<BoardEntry>, e: BoardEntry, now: u64) -> bool {
    &&& board_ordered(new)
    &&& new.contains(e)
    &&& forall|i: int|
        0 <= i < new.len() ==> #[trigger] new[i] == e || (new[i].peer != e.peer && old.contains(
            new[i],
        ) && entry_live(new[i], now))
    &&& forall|i: int|
        0 <= i < old.len() && (#[trigger] old[i]).peer != e.peer && entry_live(old[i], now)
            ==> new.contains(old[i])
}

impl StatsBoard {
    /// The entries, in the order they are shown.
    pub closed spec fn entries(&self) -> Seq<BoardEntry> {
        self.entries@
    }

    /// Well-formedness: each peer once, in board order.
    pub open spec fn wf(&self) -> bool {
        board_ordered(self.entries())
    }

    /// An empty board.
    pub fn new() -> (r: Self)
        ensures
            r.wf(),
            r.entries() == Seq::<BoardEntry>::empty(),
    {
        StatsBoard { entries: Vec::new() }
    }

    /// The entries, in the order they are shown.
    pub fn rows(&self) -> (r: &Vec<BoardEntry>)
        ensures
            r@ == self.entries(),
    {
        &self.entries
    }

    /// Records that `peer` sent `reply` at `now`, in place of what it sent
    /// before, and drops the replies that are no longer live; returns what
    /// the screen needs to redraw.
    pub fn update(&mut self, peer: u64, now: u64, reply: StatsReplyPacket) -> (r: BoardFrame)
        requires
            old(self).wf(),
        ensures
            final(self).wf(),
            board_after(old(self).entries(), final(self).entries(), BoardEntry { peer, time: now, reply }, now),
            r.previous_lines == old(self).entries().len(),
            r.removed_lines == (if final(self).entries().len() < old(self).entries().len() {
                old(self).entries().len() - final(self).entries().len()
            } else {
                0
            }),
    {
        let ghost old_entries = self.entries@;
        let previous = self.entries.len();
        let is_receiver = reply.flags.contains(StatsReplyFlags::is_receiver());
        let entry = BoardEntry { peer, time: now, reply };

        // drop the peer's previous reply and every reply no longer live
        let mut i: usize = 0;
        while i < self.entries.len()
            invariant
                i <= self.entries@.len(),
                board_ordered(self.entries@),
                forall|k: int| 0 <= k < i ==> (#[trigger] self.entries@[k]).peer != peer && entry_live(self.entries@[k], now),
                forall|k: int| 0 <= k < self.entries@.len() ==> old_entries.contains(#[trigger] self.entries@[k]),
                forall|k: int|
                    0 <= k < old_entries.len() && (#[trigger] old_entries[k]).peer != peer
                        && entry_live(old_entries[k], now) ==> self.entries@.contains(old_entries[k]),
            decreases self.entries@.len() - i,
        {
            let e = &self.entries[i];
            let live = if now >= e.time {
                now - e.time < ENTRY_LIFETIME_MICROS
            } else {
                true
            };
            if e.peer == peer || !live {
                let ghost before = self.entries@;
                self.entries.remove(i);
                proof {
                    assert forall|k: int|
                        0 <= k < old_entries.len() && (#[trigger] old_entries[k]).peer != peer
                            && entry_live(old_entries[k], now) implies self.entries@.contains(
                        old_entries[k],
                    ) by {
                        let j = choose|j: int| 0 <= j < before.len() && before[j] == old_entries[k];
                        assert(j != i);
                        if j < i {
                            assert(self.entries@[j] == old_entries[k]);
                        } else {
                            assert(self.entries@[j - 1] == old_entries[k]);
                        }
                    }
                    assert forall|k: int| 0 <= k < self.entries@.len() implies old_entries.contains(
                        #[trigger] self.entries@[k],
                    ) by {
                        if k < i {
                            assert(self.entries@[k] == before[k]);
                        } else {
                            assert(self.entries@[k] == before[k + 1]);
                        }
                    }
                }
            } else {
                i = i + 1;
            }
        }

        // insert the new reply at its place
        let mut at: usize = 0;
        let mut found = false;
        while at < self.entries.len() && !found
            invariant
                at <= self.entries@.len(),
                is_receiver == reply_is_receiver(entry.reply),
                entry.peer == peer,
                board_ordered(self.entries@),
                forall|k: int| 0 <= k < at ==> entry_before(#[trigger] self.entries@[k], entry),
                forall|k: int| 0 <= k < self.entries@.len() ==> (#[trigger] self.entries@[k]).peer != peer,
                found ==> at < self.entries@.len() && entry_before(entry, self.entries@[at as int]),
            decreases self.entries@.len() - at, if found { 0int } else { 1int },
        {
            let e = &self.entries[at];
            let e_receiver = e.reply.flags.contains(StatsReplyFlags::is_receiver());
            let goes_before = (!is_receiver && e_receiver) || (is_receiver == e_receiver && peer
                < e.peer);
            if goes_before {
                found = true;
            } else {
                at = at + 1;
            }
        }
        proof {
            assert forall|k: int| at <= k < self.entries@.len() implies entry_before(
                entry,
                #[trigger] self.entries@[k],
            ) by {
                if k > at {
                    assert(entry_before(self.entries@[at as int], self.entries@[k]));
                }
            }
        }
        let ghost before = self.entries@;
        self.entries.insert(at, entry);
        proof {
            let after = self.entries@;
            assert(after[at as int] == entry);
            assert forall|a: int, b: int| 0 <= a < b < after.len() implies entry_before(
                #[trigger] after[a],
                #[trigger] after[b],
            ) && after[a].peer != after[b].peer by {
                if b < at {
                    assert(after[a] == before[a] && after[b] == before[b]);
                } else if b == at {
                    assert(after[a] == before[a]);
                } else if a < at {
                    assert(after[a] == before[a] && after[b] == before[b - 1]);
                } else if a == at {
                    assert(after[b] == before[b - 1]);
                } else {
                    assert(after[a] == before[a - 1] && after[b] == before[b - 1]);
                }
            }
            assert forall|k: int|
                0 <= k < old_entries.len() && (#[trigger] old_entries[k]).peer != peer
                    && entry_live(old_entries[k], now) implies after.contains(old_entries[k]) by {
                let j = choose|j: int| 0 <= j < before.len() && before[j] == old_entries[k];
                if j < at {
                    assert(after[j] == old_entries[k]);
                } else {
                    assert(after[j + 1] == old_entries[k]);
                }
            }
            assert forall|k: int| 0 <= k < after.len() implies #[trigger] after[k] == entry || (
            after[k].peer != entry.peer && old_entries.contains(after[k]) && entry_live(
                after[k],
                now,
            )) by {
                if k < at {
                    assert(after[k] == before[k]);
                } else if k > at {
                    assert(after[k] == before[k - 1]);
                }
            }
        }
        let current = self.entries.len();
        let removed = if current < previous {
            previous - current
        } else {
            0
        };
        BoardFrame { previous_lines: previous, removed_lines: removed }
    }
}

/// The widths of the node and address columns of the statistics view.
#[derive(Debug, Clone, Copy, PartialEq, Eq)]
pub struct Padding {
    pub node_width: usize,
    pub addr_width: usize,
}

impl Default for Padding {
    fn default() -> (r: Padding)
        ensures
            r == (Padding { node_width: 0, addr_width: 0 }),
    {
        Padding { node_width: 0, addr_width: 0 }
    }
}

/// Widens the columns for a row showing `node` at the address written
/// `addr`. The node column takes the widest node shown; the address column
/// takes the wider of the node column and this address.
pub fn calculate(padding: &mut Padding, node: &NodeStats, addr: &str)
    ensures
        final(padding).node_width == max(
            old(padding).node_width as int,
            (encode_utf8(display_text(*node)).len() as usize) as int,
        ),
        final(padding).addr_width == max(
            final(padding).node_width as int,
            (addr.spec_bytes().len() as usize) as int,
        ),
{
    let text = display(node);
    let node_width = text.as_str().len();
    let addr_width = addr.len();
    padding.node_width = if padding.node_width >= node_width {
        padding.node_width
    } else {
        node_width
    };
    padding.addr_width = if padding.node_width >= addr_width {
        padding.node_width
    } else {
        addr_width
    };
}

/// How the stream indicator of a receiver's row is drawn, and its label:
/// the status's style and label, or plain blanks when there is no stream.
pub fn indicator_style(value: Option<StreamStatus>) -> (r: (TextStyle, &'static str))
    ensures
        r.0 == (match value {
            Some(s) => status_style(s),
            None => TextStyle::plain_spec(),
        }),
        r.1@ == (match value {
            Some(StreamStatus::Seek) => "SEEK"@,
            Some(StreamStatus::Sync) => "SYNC"@,
            Some(StreamStatus::Slew) => "SLEW"@,
            Some(StreamStatus::Miss) => "MISS"@,
            None => "    "@,
        }),
{
    match value {
        Some(status) => (status.color(), status.text()),
        None => (TextStyle::plain(), "    "),
    }
}

} // verus!
