use vstd::prelude::*;

use crate::protocol::{FRAMES_PER_PACKET, SAMPLES_PER_PACKET};
use crate::receive::{entry_samples, EntryView};
use crate::time::Timestamp;

verus! {

broadcast use vstd::seq_lib::group_seq_properties;

/// Every slot is consumed by less than a packet and holds a full packet.
pub open spec fn entries_wf(q: Seq<EntryView>) -> bool {
    forall|i: int|
        #![trigger q[i]]
        0 <= i < q.len() ==> {
            &&& q[i].consumed < FRAMES_PER_PACKET
            &&& (q[i].packet matches Some(p) ==> p.buffer.len() == SAMPLES_PER_PACKET)
        }
}

/// Frames of a slot not yet played.
pub open spec fn frames_left(e: EntryView) -> int {
    FRAMES_PER_PACKET - e.consumed
}

/// Samples of a slot not yet played.
pub open spec fn entry_pending(e: EntryView) -> Seq<u32> {
    entry_samples(e).subrange(2 * e.consumed, SAMPLES_PER_PACKET as int)
}

/// The samples still to be played from a queue, in order.
pub open spec fn pending_samples(q: Seq<EntryView>) -> Seq<u32>
    decreases q.len(),
{
    if q.len() == 0 {
        Seq::empty()
    } else {
        entry_pending(q[0]) + pending_samples(q.drop_first())
    }
}

/// The frames still to be played from a queue.
pub open spec fn queued_frames(q: Seq<EntryView>) -> int
    decreases q.len(),
{
    if q.len() == 0 {
        0
    } else {
        frames_left(q[0]) + queued_frames(q.drop_first())
    }
}

/// The queue once `f` more frames have been played from it: slots played
/// to their end leave the queue.
pub open spec fn consume_frames(q: Seq<EntryView>, f: int) -> Seq<EntryView>
    decreases q.len(),
{
    if q.len() == 0 || f <= 0 {
        q
    } else if f >= frames_left(q[0]) {
        consume_frames(q.drop_first(), f - frames_left(q[0]))
    } else {
        q.update(0, EntryView { consumed: (q[0].consumed + f) as u64, ..q[0] })
    }
}

/// The stream time reached once `f > 0` more frames have been played from
/// the queue: the due time of the slot the last of them came from, plus
/// how far into that slot playback then is; `None` if that slot's due time
/// is unknown or the sum is not a timestamp.
pub open spec fn play_position(q: Seq<EntryView>, f: int) -> Option<Timestamp>
    decreases q.len(),
{
    if q.len() == 0 || f <= 0 {
        None
    } else if f > frames_left(q[0]) {
        play_position(q.drop_first(), f - frames_left(q[0]))
    } else {
        match q[0].pts {
            None => None,
            Some(p) => if p.0 + q[0].consumed + f <= u64::MAX {
                Some(Timestamp((p.0 + q[0].consumed + f) as u64))
            } else {
                None
            },
        }
    }
}

/// The pending samples of a slot are twice its frames left.
pub proof fn lemma_entry_pending_len(e: EntryView)
    requires
        e.consumed < FRAMES_PER_PACKET,
        e.packet matches Some(p) ==> p.buffer.len() == SAMPLES_PER_PACKET,
    ensures
        entry_pending(e).len() == 2 * frames_left(e),
{
}

/// The pending samples of a queue are twice its queued frames.
pub proof fn lemma_pending_len(q: Seq<EntryView>)
    requires
        entries_wf(q),
    ensures
        pending_samples(q).len() == 2 * queued_frames(q),
        queued_frames(q) >= 0,
    decreases q.len(),
{
    if q.len() > 0 {
        assert(q[0].consumed < FRAMES_PER_PACKET);
        lemma_entry_pending_len(q[0]);
        assert(entries_wf(q.drop_first())) by {
            assert forall|i: int| 0 <= i < q.drop_first().len() implies {
                &&& #[trigger] q.drop_first()[i].consumed < FRAMES_PER_PACKET
                &&& (q.drop_first()[i].packet matches Some(p) ==> p.buffer.len() == SAMPLES_PER_PACKET)
            } by {
                assert(q.drop_first()[i] == q[i + 1]);
            }
        }
        lemma_pending_len(q.drop_first());
    }
}

/// Dropping the front slot of a well formed queue leaves a well formed
/// queue.
pub proof fn lemma_entries_wf_tail(q: Seq<EntryView>)
    requires
        entries_wf(q),
        q.len() > 0,
    ensures
        entries_wf(q.drop_first()),
{
    assert forall|i: int| 0 <= i < q.drop_first().len() implies {
        &&& #[trigger] q.drop_first()[i].consumed < FRAMES_PER_PACKET
        &&& (q.drop_first()[i].packet matches Some(p) ==> p.buffer.len() == SAMPLES_PER_PACKET)
    } by {
        assert(q.drop_first()[i] == q[i + 1]);
    }
}

/// Playing `f` frames leaves a well formed queue whose pending samples are
/// the old ones without the first `2 * f`, and `f` fewer queued frames.
pub proof fn lemma_consume(q: Seq<EntryView>, f: int)
    requires
        entries_wf(q),
        0 <= f <= queued_frames(q),
    ensures
        entries_wf(consume_frames(q, f)),
        pending_samples(consume_frames(q, f)) == pending_samples(q).skip(2 * f),
        queued_frames(consume_frames(q, f)) == queued_frames(q) - f,
    decreases q.len(),
{
    lemma_pending_len(q);
    if q.len() == 0 || f <= 0 {
        assert(pending_samples(q).skip(0) =~= pending_samples(q));
    } else {
        let e = q[0];
        let tail = q.drop_first();
        lemma_entries_wf_tail(q);
        lemma_entry_pending_len(e);
        lemma_pending_len(tail);
        if f >= frames_left(e) {
            lemma_consume(tail, f - frames_left(e));
            assert(pending_samples(q) == entry_pending(e) + pending_samples(tail));
            assert(pending_samples(q).skip(2 * f) =~= pending_samples(tail).skip(
                2 * (f - frames_left(e)),
            ));
        } else {
            let u = q.update(0, EntryView { consumed: (e.consumed + f) as u64, ..e });
            assert(u.drop_first() =~= tail);
            assert(entries_wf(u)) by {
                assert forall|i: int| 0 <= i < u.len() implies {
                    &&& #[trigger] u[i].consumed < FRAMES_PER_PACKET
                    &&& (u[i].packet matches Some(p) ==> p.buffer.len() == SAMPLES_PER_PACKET)
                } by {
                    if i > 0 {
                        assert(u[i] == q[i]);
                    }
                }
            }
            assert(entry_pending(u[0]) =~= entry_pending(e).skip(2 * f));
            assert(pending_samples(u) == entry_pending(u[0]) + pending_samples(tail));
            assert(pending_samples(q) == entry_pending(e) + pending_samples(tail));
            assert(pending_samples(q).skip(2 * f) =~= entry_pending(e).skip(2 * f) + pending_samples(
                tail,
            ));
        }
    }
}

/// Playing `f` frames and then `c` more is playing `f + c` frames.
pub proof fn lemma_consume_compose(q: Seq<EntryView>, f: int, c: int)
    requires
        entries_wf(q),
        0 <= f,
        0 <= c,
    ensures
        consume_frames(q, f + c) == consume_frames(consume_frames(q, f), c),
    decreases q.len(),
{
    if q.len() == 0 || f <= 0 {
    } else {
        let e = q[0];
        let tail = q.drop_first();
        lemma_entries_wf_tail(q);
        if f >= frames_left(e) {
            lemma_consume_compose(tail, f - frames_left(e), c);
        } else {
            let u = q.update(0, EntryView { consumed: (e.consumed + f) as u64, ..e });
            assert(u.drop_first() =~= tail);
            if c <= 0 {
            } else if f + c >= frames_left(e) {
                assert(c >= frames_left(u[0]));
            } else {
                assert(q.update(0, EntryView { consumed: (e.consumed + f + c) as u64, ..e })
                    =~= u.update(0, EntryView { consumed: (u[0].consumed + c) as u64, ..u[0] }));
            }
        }
    }
}

/// The position reached after `f + c` frames, for `c > 0`, is the one
/// reached by playing `c` frames from the queue left after `f`.
pub proof fn lemma_position_compose(q: Seq<EntryView>, f: int, c: int)
    requires
        entries_wf(q),
        0 <= f,
        0 < c,
    ensures
        play_position(q, f + c) == play_position(consume_frames(q, f), c),
    decreases q.len(),
{
    if q.len() == 0 || f <= 0 {
    } else {
        let e = q[0];
        let tail = q.drop_first();
        lemma_entries_wf_tail(q);
        if f >= frames_left(e) {
            lemma_position_compose(tail, f - frames_left(e), c);
        } else {
            let u = q.update(0, EntryView { consumed: (e.consumed + f) as u64, ..e });
            assert(u.drop_first() =~= tail);
        }
    }
}


/// How a receiver that is not yet in sync lines up with its queue.
pub enum SyncOutcome {
    /// Nothing to play yet: the output is silence.
    Silence,
    /// In sync: the output starts with this many frames of silence and
    /// then plays the queue.
    Synced(nat),
}

/// Lining up the output, which asks for `frames` frames due from `pts`,
/// with the queue `q`: a front slot with no known due time is dropped and
/// the output stays silent; slots already late by a whole packet are
/// dropped; a front slot that has begun is played from the frame now due;
/// a front slot due within this output is played after silence up to it;
/// one due later leaves the output silent.
pub open spec fn sync_queue(q: Seq<EntryView>, pts: u64, frames: int) -> (Seq<EntryView>, SyncOutcome)
    decreases q.len(),
{
    if q.len() == 0 {
        (q, SyncOutcome::Silence)
    } else {
        match q[0].pts {
            None => (q.drop_first(), SyncOutcome::Silence),
            Some(front_pts) => if pts > front_pts.0 {
                let late = pts - front_pts.0;
                if late >= FRAMES_PER_PACKET {
                    sync_queue(q.drop_first(), pts, frames)
                } else {
                    (
                        q.update(0, EntryView { consumed: late as u64, ..q[0] }),
                        SyncOutcome::Synced(0),
                    )
                }
            } else {
                let early = front_pts.0 - pts;
                if early >= frames {
                    (q, SyncOutcome::Silence)
                } else {
                    (q, SyncOutcome::Synced(early as nat))
                }
            },
        }
    }
}

/// `n` silent samples.
pub open spec fn silence(n: int) -> Seq<u32> {
    Seq::new(n as nat, |i: int| 0u32)
}


/// The silence that precedes the queue's audio once in sync lies within
/// the output.
pub proof fn lemma_sync_queue_bound(q: Seq<EntryView>, pts: u64, frames: int)
    requires
        frames >= 0,
    ensures
        sync_queue(q, pts, frames).1 matches SyncOutcome::Synced(z) ==> z <= frames,
    decreases q.len(),
{
    if q.len() > 0 {
        lemma_sync_queue_bound(q.drop_first(), pts, frames);
    }
}

} // verus!
