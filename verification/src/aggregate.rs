use vstd::prelude::*;

verus! {

broadcast use {vstd::seq_lib::group_seq_properties, vstd::multiset::group_multiset_properties};

/// Number of most recent observations an aggregate keeps.
pub const AGGREGATE_WINDOW: usize = 64;

/// The values of `s` as mathematical integers.
pub open spec fn as_ints(s: Seq<i64>) -> Seq<int> {
    s.map_values(|x: i64| x as int)
}

/// The order the window is sorted by.
pub open spec fn int_leq() -> spec_fn(int, int) -> bool {
    |x: int, y: int| x <= y
}

/// `v` in ascending order, by insertion.
fn sorted_copy(v: &Vec<i64>) -> (r: Vec<i64>)
    ensures
        as_ints(r@) == as_ints(v@).sort(),
        r@.len() == v@.len(),
{
    let mut out: Vec<i64> = Vec::new();
    let mut k: usize = 0;
    while k < v.len()
        invariant
            k <= v@.len(),
            out@.len() == k,
            forall|i: int, j: int| 0 <= i < j < out@.len() ==> out@[i] <= out@[j],
            as_ints(out@).to_multiset() == as_ints(v@.take(k as int)).to_multiset(),
        decreases v@.len() - k,
    {
        let x = v[k];
        let mut pos: usize = 0;
        while pos < out.len() && out[pos] <= x
            invariant
                pos <= out@.len(),
                forall|i: int| 0 <= i < pos ==> out@[i] <= x,
            decreases out@.len() - pos,
        {
            pos = pos + 1;
        }
        let ghost before = out@;
        out.insert(pos, x);
        proof {
            assert forall|i: int| pos <= i < before.len() implies x < before[i] by {
                assert(before[pos as int] > x);
            }
            assert(as_ints(out@).remove(pos as int) =~= as_ints(before));
            as_ints(out@).to_multiset_ensures();
            assert(as_ints(out@)[pos as int] == x as int);
            assert(as_ints(out@).to_multiset().count(x as int) > 0);
            assert(as_ints(out@).to_multiset() =~= as_ints(before).to_multiset().insert(x as int));
            assert(as_ints(v@.take(k as int + 1)) =~= as_ints(v@.take(k as int)).push(x as int));
            as_ints(v@.take(k as int)).to_multiset_ensures();
        }
        k = k + 1;
    }
    proof {
        let a = as_ints(out@);
        let b = as_ints(v@).sort();
        assert(v@.take(v@.len() as int) =~= v@);
        as_ints(v@).lemma_sort_ensures();
        assert(vstd::relations::total_ordering(int_leq()));
        assert(vstd::relations::sorted_by(a, int_leq()));
        vstd::seq_lib::lemma_sorted_unique(a, b, int_leq());
    }
    out
}

/// The median of a rolling window of the most recent observations (the
/// network latency or the clock delta of a stream, in microseconds).
pub struct Aggregate {
    samples: Vec<i64>,
    count: usize,
    index: usize,
    history: Ghost<Seq<i64>>,
}

/// The last `AGGREGATE_WINDOW` values of `h`, oldest first; all of them
/// when there are fewer.
pub open spec fn recent(h: Seq<i64>) -> Seq<i64> {
    if h.len() <= AGGREGATE_WINDOW {
        h
    } else {
        h.subrange(h.len() - AGGREGATE_WINDOW, h.len() as int)
    }
}

impl Aggregate {
    /// The slots of the ring buffer.
    pub closed spec fn slots(&self) -> Seq<i64> {
        self.samples@
    }

    /// The number of filled slots.
    pub closed spec fn filled(&self) -> nat {
        self.count as nat
    }

    /// The slot that the next observation goes to.
    pub closed spec fn cursor(&self) -> nat {
        self.index as nat
    }

    /// Every value observed so far, oldest first.
    pub closed spec fn history(&self) -> Seq<i64> {
        self.history@
    }

    /// The slot holding the `i`th of the kept observations, oldest first.
    pub open spec fn ring_slot(&self, i: int) -> int {
        if self.filled() < AGGREGATE_WINDOW {
            i
        } else {
            (self.cursor() + i) % (AGGREGATE_WINDOW as int)
        }
    }

    /// The ring buffer holds `AGGREGATE_WINDOW` slots; `count` of them are
    /// filled, and `index` is the slot the next observation goes to, which
    /// is the first free slot until the buffer is full. The filled slots
    /// hold the last observations, oldest first from the cursor once the
    /// buffer is full.
    pub open spec fn wf(&self) -> bool {
        &&& self.slots().len() == AGGREGATE_WINDOW
        &&& self.filled() <= AGGREGATE_WINDOW
        &&& self.cursor() < AGGREGATE_WINDOW
        &&& self.filled() < AGGREGATE_WINDOW ==> self.cursor() == self.filled()
        &&& self.filled() == recent(self.history()).len()
        &&& forall|i: int|
            0 <= i < self.filled() ==> #[trigger] self.slots()[self.ring_slot(i)] == recent(
                self.history(),
            )[i]
    }

    /// The observations the median is taken over.
    pub open spec fn window(&self) -> Seq<i64> {
        self.slots().subrange(0, self.filled() as int)
    }

    /// The value the next observation replaces once the window is full: the
    /// oldest one kept.
    pub open spec fn oldest(&self) -> i64 {
        self.slots()[self.cursor() as int]
    }

    /// The median of the window: the element in the middle (the upper
    /// middle for an even count) once the window is sorted.
    pub open spec fn median_spec(&self) -> Option<int> {
        if self.filled() == 0 {
            None
        } else {
            Some(as_ints(self.window()).sort()[self.filled() as int / 2])
        }
    }

    /// `after` is this aggregate once `value` has been observed: the value
    /// takes the cursor's slot, the window grows by it until full and from
    /// then on it replaces the oldest value kept.
    pub open spec fn observed(&self, after: &Aggregate, value: i64) -> bool {
        &&& after.wf()
        &&& after.slots() == self.slots().update(self.cursor() as int, value)
        &&& after.filled() == if self.filled() < AGGREGATE_WINDOW {
            self.filled() + 1
        } else {
            AGGREGATE_WINDOW as nat
        }
        &&& after.cursor() == (self.cursor() + 1) % (AGGREGATE_WINDOW as nat)
        &&& after.history() == self.history().push(value)
        &&& self.filled() < AGGREGATE_WINDOW ==> after.window() == self.window().push(value)
        &&& self.filled() == AGGREGATE_WINDOW ==> after.window().to_multiset()
            == self.window().to_multiset().remove(self.oldest()).insert(value)
    }

    /// An aggregate with no observations.
    pub fn new() -> (r: Self)
        ensures
            r.wf(),
            r.window() == Seq::<i64>::empty(),
            r.history() == Seq::<i64>::empty(),
    {
        let mut samples: Vec<i64> = Vec::new();
        let mut k: usize = 0;
        while k < AGGREGATE_WINDOW
            invariant
                k <= AGGREGATE_WINDOW,
                samples@.len() == k,
            decreases AGGREGATE_WINDOW - k,
        {
            samples.push(0);
            k += 1;
        }
        Aggregate { samples, count: 0, index: 0, history: Ghost(Seq::empty()) }
    }

    /// Records `value`, replacing the oldest observation once the window of
    /// `AGGREGATE_WINDOW` is full.
    pub fn observe(&mut self, value: i64)
        requires
            old(self).wf(),
        ensures
            old(self).observed(&*final(self), value),
    {
        let ghost before = self.samples@;
        let ghost h0 = self.history@;
        self.samples.set(self.index, value);
        self.history = Ghost(h0.push(value));

        if self.count < AGGREGATE_WINDOW {
            self.count += 1;
        }

        self.index += 1;
        self.index %= AGGREGATE_WINDOW;

        proof {
            let h1 = h0.push(value);
            if old(self).count < AGGREGATE_WINDOW {
                assert(h0.len() <= AGGREGATE_WINDOW);
                assert(recent(h0) == h0);
                assert(recent(h1) == h1);
                assert forall|i: int| 0 <= i < self.filled() implies #[trigger] self.slots()[self.ring_slot(
                    i,
                )] == recent(self.history())[i] by {
                    if self.count == AGGREGATE_WINDOW {
                        assert(self.index == 0);
                        assert((0 + i) % 64 == i);
                    }
                    if i < old(self).count {
                        assert(before[old(self).ring_slot(i)] == recent(h0)[i]);
                        assert(old(self).ring_slot(i) == i);
                    }
                }
                assert(self.window() =~= old(self).window().push(value));
            } else {
                let c = old(self).index as int;
                let r0 = recent(h0);
                let r1 = recent(h1);
                assert(h0.len() >= 64);
                assert(r1 =~= r0.drop_first().push(value));
                assert forall|i: int| 0 <= i < 64 implies #[trigger] self.slots()[self.ring_slot(i)]
                    == recent(self.history())[i] by {
                    assert(self.ring_slot(i) == (c + 1 + i) % 64);
                    if i < 63 {
                        assert((c + 1 + i) % 64 == (c + (i + 1)) % 64);
                        assert((c + (i + 1)) % 64 != c);
                        assert(before[old(self).ring_slot(i + 1)] == r0[i + 1]);
                    } else {
                        assert((c + 64) % 64 == c);
                    }
                }
                let i = old(self).index as int;
                assert(self.window() =~= before.update(i, value));
                assert(old(self).window() =~= before);
                lemma_update_multiset(before, i, value);
            }
        }
    }

    /// The median of the window, or `None` before the first observation.
    pub fn median(&self) -> (r: Option<i64>)
        requires
            self.wf(),
        ensures
            match r {
                Some(m) => self.median_spec() == Some(m as int),
                None => self.median_spec() is None,
            },
    {
        if self.count == 0 {
            return None;
        }
        let mut window: Vec<i64> = Vec::new();
        let mut k: usize = 0;
        while k < self.count
            invariant
                self.wf(),
                k <= self.count,
                window@ =~= self.samples@.subrange(0, k as int),
            decreases self.count - k,
        {
            window.push(self.samples[k]);
            k += 1;
        }
        let window = sorted_copy(&window);
        let m = window[self.count / 2];
        assert(as_ints(window@)[self.count as int / 2] == m as int);
        Some(m)
    }
}

/// The median is taken over the last `AGGREGATE_WINDOW` observations: it
/// is the middle one (the upper middle for an even count), in ascending
/// order, of the values observed most recently; older ones no longer count.
pub proof fn lemma_median_of_recent(a: &Aggregate)
    requires
        a.wf(),
        a.filled() > 0,
    ensures
        a.median_spec() == Some(
            as_ints(recent(a.history())).sort()[recent(a.history()).len() as int / 2],
        ),
{
    let r = recent(a.history());
    let w = a.window();
    let sl = a.slots();
    if a.filled() < AGGREGATE_WINDOW {
        assert forall|i: int| 0 <= i < r.len() implies w[i] == r[i] by {
            assert(sl[a.ring_slot(i)] == r[i]);
        }
        assert(w =~= r);
    } else {
        let c = a.cursor() as int;
        let lo = sl.subrange(0, c);
        let hi = sl.subrange(c, 64);
        assert(w =~= lo + hi);
        assert forall|i: int| 0 <= i < 64 implies r[i] == (hi + lo)[i] by {
            assert(sl[a.ring_slot(i)] == r[i]);
            if i < 64 - c {
                assert((c + i) % 64 == c + i);
            } else {
                assert((c + i) % 64 == i - (64 - c));
            }
        }
        assert(r =~= hi + lo);
        let x = as_ints(w);
        let y = as_ints(r);
        assert(x =~= as_ints(lo) + as_ints(hi));
        assert(y =~= as_ints(hi) + as_ints(lo));
        vstd::seq_lib::lemma_seq_union_to_multiset_commutative(as_ints(lo), as_ints(hi));
        x.lemma_sort_ensures();
        y.lemma_sort_ensures();
        assert(vstd::relations::total_ordering(int_leq()));
        vstd::seq_lib::lemma_sorted_unique(x.sort(), y.sort(), int_leq());
    }
}

/// A new observation is always kept; the oldest kept one is dropped only
/// when `AGGREGATE_WINDOW` were kept already.
pub proof fn lemma_recent_push(h: Seq<i64>, v: i64)
    ensures
        recent(h.push(v)) == (if h.len() < AGGREGATE_WINDOW {
            h.push(v)
        } else {
            recent(h).drop_first().push(v)
        }),
{
    if h.len() >= AGGREGATE_WINDOW {
        assert(recent(h.push(v)) =~= recent(h).drop_first().push(v));
    }
}

/// The median is one of the observations in the window.
pub proof fn lemma_median_is_observed(a: &Aggregate)
    requires
        a.wf(),
        a.filled() > 0,
    ensures
        exists|i: int| 0 <= i < a.filled() && a.median_spec() == Some(a.window()[i] as int),
{
    let w = as_ints(a.window());
    w.lemma_sort_ensures();
    w.to_multiset_ensures();
    w.sort().to_multiset_ensures();
    let k = a.filled() as int / 2;
    assert(w.sort().len() == w.len());
    let m = w.sort()[k];
    assert(w.sort().contains(m));
    assert(w.sort().to_multiset().count(m) > 0);
    assert(w.to_multiset().count(m) > 0);
    assert(w.contains(m));
    let i = choose|i: int| 0 <= i < w.len() && w[i] == m;
    assert(a.window()[i] as int == m);
}

/// Replacing one element of a sequence replaces it in the multiset of its
/// elements.
proof fn lemma_update_multiset(s: Seq<i64>, i: int, v: i64)
    requires
        0 <= i < s.len(),
    ensures
        s.update(i, v).to_multiset() == s.to_multiset().remove(s[i]).insert(v),
{
    let t = s.update(i, v);
    let a = s.subrange(0, i);
    let b = s.subrange(i + 1, s.len() as int);
    assert(s =~= a + seq![s[i]] + b);
    assert(t =~= a + seq![v] + b);
    vstd::seq_lib::lemma_multiset_commutative(a + seq![s[i]], b);
    vstd::seq_lib::lemma_multiset_commutative(a, seq![s[i]]);
    vstd::seq_lib::lemma_multiset_commutative(a + seq![v], b);
    vstd::seq_lib::lemma_multiset_commutative(a, seq![v]);
    assert(seq![s[i]].to_multiset() =~= vstd::multiset::Multiset::singleton(s[i]));
    assert(seq![v].to_multiset() =~= vstd::multiset::Multiset::singleton(v));
    assert(t.to_multiset() =~= s.to_multiset().remove(s[i]).insert(v));
}

} // verus!
