use vstd::prelude::*;

use crate::time::SampleDuration;

verus! {

broadcast use vstd::seq_lib::group_seq_properties;

/// The other end of an audio buffer has gone away.
#[derive(Debug, Clone, Copy, PartialEq, Eq)]
pub struct Disconnected;

impl Disconnected {
    /// What the error says.
    pub fn message(&self) -> (r: &'static str)
        ensures
            r@ == "audio disconnected"@,
    {
        "audio disconnected"
    }
}

/// A stereo frame: the IEEE 754 bit patterns of its left and right 32-bit
/// float samples.
#[derive(Debug, Clone, Copy, PartialEq, Eq)]
pub struct Frame(pub u32, pub u32);

impl Frame {
    /// The silent frame.
    pub fn zero() -> (r: Frame)
        ensures
            r == Frame(0, 0),
    {
        Frame(0, 0)
    }
}

/// A bounded queue of frames between the decoder, which writes, and an
/// audio callback, which reads.
pub struct FrameBuffer {
    deque: std::collections::VecDeque<Frame>,
    size: usize,
}

impl FrameBuffer {
    /// The frames held, oldest first.
    pub closed spec fn frames(&self) -> Seq<Frame> {
        self.deque@
    }

    /// How many frames the buffer can hold.
    pub closed spec fn capacity(&self) -> nat {
        self.size as nat
    }

    /// The buffer holds no more frames than its capacity.
    pub open spec fn wf(&self) -> bool {
        self.frames().len() <= self.capacity()
    }

    /// An empty buffer holding up to `size` frames.
    pub fn new(size: usize) -> (r: Self)
        ensures
            r.wf(),
            r.frames() == Seq::<Frame>::empty(),
            r.capacity() == size,
    {
        FrameBuffer { deque: std::collections::VecDeque::new(), size }
    }

    /// How many frames the buffer holds.
    pub fn len(&self) -> (r: usize)
        ensures
            r == self.frames().len(),
    {
        self.deque.len()
    }

    /// How long the buffered frames take to play.
    pub fn delay(&self) -> (r: SampleDuration)
        ensures
            r.0 == self.frames().len(),
    {
        SampleDuration(self.deque.len() as u64)
    }

    /// Takes up to `max` frames from the front of the buffer: as many as
    /// it holds, if that is fewer.
    pub fn read(&mut self, max: usize) -> (r: Vec<Frame>)
        requires
            old(self).wf(),
        ensures
            final(self).wf(),
            final(self).capacity() == old(self).capacity(),
            r@.len() == (if old(self).frames().len() < max {
                old(self).frames().len()
            } else {
                max as nat
            }),
            r@ == old(self).frames().take(r@.len() as int),
            final(self).frames() == old(self).frames().skip(r@.len() as int),
    {
        let n = if self.deque.len() < max {
            self.deque.len()
        } else {
            max
        };
        let ghost start = self.deque@;
        let mut out: Vec<Frame> = Vec::new();
        let mut i: usize = 0;
        while i < n
            invariant
                i <= n,
                n <= start.len(),
                out@ == start.take(i as int),
                self.deque@ == start.skip(i as int),
                self.size == old(self).size,
            decreases n - i,
        {
            let f = self.deque.pop_front().unwrap();
            out.push(f);
            i = i + 1;
            assert(out@ =~= start.take(i as int));
            assert(self.deque@ =~= start.skip(i as int));
        }
        out
    }

    /// Appends as many frames of `data` as the buffer has room for, from
    /// the first on, and returns how many it took.
    pub fn write(&mut self, data: &[Frame]) -> (r: usize)
        requires
            old(self).wf(),
        ensures
            final(self).wf(),
            final(self).capacity() == old(self).capacity(),
            r == (if old(self).capacity() - old(self).frames().len() < data@.len() {
                old(self).capacity() - old(self).frames().len()
            } else {
                data@.len() as int
            }),
            final(self).frames() == old(self).frames() + data@.take(r as int),
    {
        let available = self.size - self.deque.len();
        let n = if available < data.len() {
            available
        } else {
            data.len()
        };
        let ghost start = self.deque@;
        let mut i: usize = 0;
        while i < n
            invariant
                i <= n,
                n <= data@.len(),
                start.len() + n <= self.size,
                self.deque@ == start + data@.take(i as int),
                self.size == old(self).size,
            decreases n - i,
        {
            self.deque.push_back(data[i]);
            i = i + 1;
            assert(self.deque@ =~= start + data@.take(i as int));
        }
        n
    }
}

/// Where a blocking write stands after one pass.
#[derive(Debug, Clone, Copy, PartialEq, Eq)]
pub enum WriteProgress {
    /// Every frame has been written.
    Done,
    /// The buffer is full: wait for a read, then go on from this frame.
    Wait(usize),
}

/// Where a pass that writes from frame `from` of `len` frames stops when
/// the buffer has room for `room` more.
pub open spec fn pass_end(room: int, from: int, len: int) -> int {
    if room < len - from {
        from + room
    } else {
        len
    }
}

/// The frames that a run of write passes over `data` appends, pass `i`
/// writing the frames from `ends[i]` up to `ends[i + 1]`.
pub open spec fn appended_by_passes(data: Seq<Frame>, ends: Seq<int>) -> Seq<Frame>
    decreases ends.len(),
{
    if ends.len() < 2 {
        Seq::empty()
    } else {
        appended_by_passes(data, ends.drop_last()) + data.subrange(
            ends[ends.len() - 2],
            ends.last(),
        )
    }
}

/// A blocking write that completes appends every frame of its data once,
/// in order, whatever was read between its passes: its passes start at the
/// first frame, each goes on where the one before stopped, and the last
/// ends with the data.
pub proof fn lemma_completed_write_appends_data(data: Seq<Frame>, ends: Seq<int>)
    requires
        ends.len() >= 1,
        ends[0] == 0,
        ends.last() == data.len(),
        forall|i: int, j: int| 0 <= i <= j < ends.len() ==> ends[i] <= ends[j],
    ensures
        appended_by_passes(data, ends) == data,
{
    lemma_passes_prefix(data, ends);
    assert(data.subrange(0, data.len() as int) =~= data);
}

proof fn lemma_passes_prefix(data: Seq<Frame>, ends: Seq<int>)
    requires
        ends.len() >= 1,
        ends[0] == 0,
        ends.last() <= data.len(),
        forall|i: int, j: int| 0 <= i <= j < ends.len() ==> ends[i] <= ends[j],
    ensures
        appended_by_passes(data, ends) == data.subrange(0, ends.last()),
    decreases ends.len(),
{
    if ends.len() < 2 {
        assert(data.subrange(0, 0) =~= Seq::<Frame>::empty());
    } else {
        let front = ends.drop_last();
        assert(front[front.len() - 1] == ends[ends.len() - 2]);
        assert(ends[ends.len() - 2] <= ends.last());
        lemma_passes_prefix(data, front);
        assert(data.subrange(0, front.last()) + data.subrange(front.last(), ends.last())
            =~= data.subrange(0, ends.last()));
    }
}

impl FrameBuffer {
    /// One pass of a write that blocks until all of `data` is written,
    /// going on from frame `from`: with nothing left it is done; when the
    /// reading side has gone (`reader_alive` false) it fails with
    /// `Disconnected`; otherwise it appends as many of the frames left as
    /// the buffer has room for, and is done if that was all of them, or
    /// else waits for room and goes on from the first frame not written.
    pub fn write_pass(&mut self, data: &[Frame], from: usize, reader_alive: bool) -> (r: Result<
        WriteProgress,
        Disconnected,
    >)
        requires
            old(self).wf(),
            from <= data@.len(),
        ensures
            final(self).wf(),
            final(self).capacity() == old(self).capacity(),
            from == data@.len() ==> r == Ok::<WriteProgress, Disconnected>(WriteProgress::Done)
                && final(self).frames() == old(self).frames(),
            from < data@.len() && !reader_alive ==> r == Err::<WriteProgress, Disconnected>(
                Disconnected,
            ) && final(self).frames() == old(self).frames(),
            from < data@.len() && reader_alive ==> {
                let to = pass_end(
                    old(self).capacity() - old(self).frames().len(),
                    from as int,
                    data@.len() as int,
                );
                &&& final(self).frames() == old(self).frames() + data@.subrange(from as int, to)
                &&& r == if to == data@.len() {
                    Ok::<WriteProgress, Disconnected>(WriteProgress::Done)
                } else {
                    Ok::<WriteProgress, Disconnected>(WriteProgress::Wait(to as usize))
                }
            },
    {
        if from == data.len() {
            return Ok(WriteProgress::Done);
        }
        if !reader_alive {
            return Err(Disconnected);
        }
        let available = self.size - self.deque.len();
        let left = data.len() - from;
        let n = if available < left {
            available
        } else {
            left
        };
        let ghost start = self.deque@;
        let mut i: usize = 0;
        while i < n
            invariant
                i <= n,
                from + n <= data.len(),
                start.len() + n <= self.size,
                self.deque@ == start + data@.subrange(from as int, from + i),
                self.size == old(self).size,
            decreases n - i,
        {
            self.deque.push_back(data[from + i]);
            i = i + 1;
            assert(self.deque@ =~= start + data@.subrange(from as int, from + i));
        }
        if from + n == data.len() {
            Ok(WriteProgress::Done)
        } else {
            Ok(WriteProgress::Wait(from + n))
        }
    }
}

/// What an audio callback asking for `wanted` frames plays from `buffer`:
/// the frames the buffer holds, up to `wanted`, then silence; and whether
/// it ran short.
pub fn render_from(buffer: &mut FrameBuffer, wanted: usize) -> (r: (Vec<Frame>, bool))
    requires
        old(buffer).wf(),
    ensures
        final(buffer).wf(),
        final(buffer).capacity() == old(buffer).capacity(),
        ({
            let n = if old(buffer).frames().len() < wanted {
                old(buffer).frames().len() as int
            } else {
                wanted as int
            };
            &&& r.0@.len() == wanted
            &&& r.0@.take(n) == old(buffer).frames().take(n)
            &&& forall|i: int| n <= i < wanted ==> r.0@[i] == Frame(0, 0)
            &&& final(buffer).frames() == old(buffer).frames().skip(n)
            &&& r.1 == (n < wanted)
        }),
{
    let mut frames = buffer.read(wanted);
    let n = frames.len();
    let ghost got = frames@;
    while frames.len() < wanted
        invariant
            n <= frames@.len() <= wanted,
            frames@.take(n as int) == got,
            got.len() == n,
            forall|i: int| n <= i < frames@.len() ==> frames@[i] == Frame(0, 0),
        decreases wanted - frames@.len(),
    {
        frames.push(Frame::zero());
        assert(frames@.take(n as int) =~= got);
    }
    (frames, n < wanted)
}

/// The samples of channel `channel` of `frames`: the left samples for
/// channel zero, the right ones for channel one, silence for any other.
pub fn channel_samples(frames: &[Frame], channel: usize) -> (r: Vec<u32>)
    ensures
        r@.len() == frames@.len(),
        forall|i: int|
            0 <= i < frames@.len() ==> #[trigger] r@[i] == (if channel == 0 {
                frames@[i].0
            } else if channel == 1 {
                frames@[i].1
            } else {
                0
            }),
{
    let mut out: Vec<u32> = Vec::new();
    let mut i: usize = 0;
    while i < frames.len()
        invariant
            i <= frames@.len(),
            out@.len() == i,
            forall|k: int|
                0 <= k < i ==> #[trigger] out@[k] == (if channel == 0 {
                    frames@[k].0
                } else if channel == 1 {
                    frames@[k].1
                } else {
                    0
                }),
        decreases frames@.len() - i,
    {
        let f = frames[i];
        let v = if channel == 0 {
            f.0
        } else if channel == 1 {
            f.1
        } else {
            0
        };
        out.push(v);
        i = i + 1;
    }
    out
}

/// Fills `slice` with `items`, which must be exactly as many.
pub fn copy_from_iter<T: Copy>(slice: &mut Vec<T>, items: &[T])
    requires
        old(slice)@.len() == items@.len(),
    ensures
        final(slice)@ == items@,
{
    let mut i: usize = 0;
    while i < items.len()
        invariant
            i <= items@.len(),
            slice@.len() == items@.len(),
            forall|k: int| 0 <= k < i ==> slice@[k] == items@[k],
        decreases items@.len() - i,
    {
        slice.set(i, items[i]);
        i = i + 1;
    }
    assert(slice@ =~= items@);
}

} // verus!
