use vstd::prelude::*;
use vstd::string::*;

use crate::text::{decimal, push_decimal, push_signed_decimal, signed_decimal};
use crate::time::{frames_to_micros, SampleDuration, TimestampDelta};

verus! {

/// The raw value that marks a gauge as holding no observation.
pub const GAUGE_NO_VALUE: i64 = i64::MIN;

/// A monotonic count, exported as a Prometheus counter.
pub struct Counter {
    name: &'static str,
    value: u64,
}

/// The exposition text of a counter called `name` at `value`.
pub open spec fn counter_text(name: Seq<char>, value: u64) -> Seq<char> {
    seq!['#', ' ', 'T', 'Y', 'P', 'E', ' '] + name + seq![
        ' ',
        'c',
        'o',
        'u',
        'n',
        't',
        'e',
        'r',
        '\n',
    ] + name + seq![' '] + decimal(value as nat) + seq!['\n', '\n']
}

/// The exposition text of a gauge called `name` holding `value`, which is
/// empty when the gauge holds no observation.
pub open spec fn gauge_text(name: Seq<char>, value: Option<i64>) -> Seq<char> {
    match value {
        None => Seq::empty(),
        Some(v) => seq!['#', ' ', 'T', 'Y', 'P', 'E', ' '] + name + seq![
            ' ',
            'g',
            'a',
            'u',
            'g',
            'e',
            '\n',
        ] + name + seq![' '] + signed_decimal(v as int),
    }
}

impl Counter {
    /// The counter's name.
    pub closed spec fn name(&self) -> &'static str {
        self.name
    }

    /// The counter's value.
    pub closed spec fn value(&self) -> u64 {
        self.value
    }

    /// A counter called `name`, at zero.
    pub fn new(name: &'static str) -> (r: Self)
        ensures
            r.name() == name,
            r.value() == 0,
    {
        Counter { name, value: 0 }
    }

    /// The counter's current value.
    pub fn get(&self) -> (r: u64)
        ensures
            r == self.value(),
    {
        self.value
    }

    /// Adds `n`; the count wraps around past `u64::MAX`.
    pub fn add(&mut self, n: usize)
        ensures
            final(self).name() == old(self).name(),
            final(self).value() == (if old(self).value() + n <= u64::MAX {
                old(self).value() + n
            } else {
                old(self).value() + n - 0x1_0000_0000_0000_0000
            }),
    {
        let n = n as u64;
        self.value = self.value.wrapping_add(n);
    }

    /// Adds one.
    pub fn increment(&mut self)
        ensures
            final(self).name() == old(self).name(),
            final(self).value() == (if old(self).value() < u64::MAX {
                old(self).value() + 1
            } else {
                0
            }),
    {
        self.add(1);
    }

    /// The counter in the Prometheus text exposition format.
    pub fn render(&self) -> (r: String)
        ensures
            r@ == counter_text(self.name()@, self.value()),
    {
        let mut s = String::new();
        proof {
            reveal_strlit("# TYPE ");
            reveal_strlit(" counter\n");
            reveal_strlit(" ");
            reveal_strlit("\n\n");
        }
        s.append("# TYPE ");
        s.append(self.name);
        s.append(" counter\n");
        s.append(self.name);
        s.append(" ");
        push_decimal(&mut s, self.value);
        s.append("\n\n");
        assert(s@ =~= counter_text(self.name()@, self.value()));
        s
    }
}

/// A value a gauge can observe, reported as a single `i64`.
pub trait GaugeValue {
    /// The `i64` this value is reported as.
    spec fn gauge_value(&self) -> i64;

    /// This value as reported by a gauge.
    fn to_i64(&self) -> (r: i64)
        ensures
            r == self.gauge_value(),
    ;
}

impl<T: GaugeValue> GaugeValue for Option<T> {
    /// Nothing is reported as no observation; a value as itself.
    open spec fn gauge_value(&self) -> i64 {
        match self {
            None => GAUGE_NO_VALUE,
            Some(v) => v.gauge_value(),
        }
    }

    fn to_i64(&self) -> (r: i64) {
        match self {
            None => GAUGE_NO_VALUE,
            Some(v) => v.to_i64(),
        }
    }
}

impl GaugeValue for usize {
    /// A count as itself, or no observation when it exceeds `i64::MAX`.
    open spec fn gauge_value(&self) -> i64 {
        if *self <= i64::MAX {
            *self as i64
        } else {
            GAUGE_NO_VALUE
        }
    }

    fn to_i64(&self) -> (r: i64) {
        if *self as u64 <= i64::MAX as u64 {
            *self as i64
        } else {
            GAUGE_NO_VALUE
        }
    }
}

/// The microseconds of a signed frame count, rounded towards zero.
pub open spec fn delta_micros(frames: int) -> int {
    if frames < 0 {
        -frames_to_micros(-frames)
    } else {
        frames_to_micros(frames)
    }
}

impl GaugeValue for TimestampDelta {
    /// A delta in microseconds, or no observation when that does not fit in
    /// an `i64`.
    open spec fn gauge_value(&self) -> i64 {
        if i64::MIN <= delta_micros(self.0 as int) <= i64::MAX {
            delta_micros(self.0 as int) as i64
        } else {
            GAUGE_NO_VALUE
        }
    }

    fn to_i64(&self) -> (r: i64) {
        let f = self.0 as i128;
        let micros: i128 = if f < 0 {
            -((-f) * 1_000_000 / 48000)
        } else {
            f * 1_000_000 / 48000
        };
        if i64::MIN as i128 <= micros && micros <= i64::MAX as i128 {
            micros as i64
        } else {
            GAUGE_NO_VALUE
        }
    }
}

impl GaugeValue for SampleDuration {
    /// A duration in microseconds, or no observation when that exceeds
    /// `i64::MAX`.
    open spec fn gauge_value(&self) -> i64 {
        if frames_to_micros(self.0 as int) <= i64::MAX {
            frames_to_micros(self.0 as int) as i64
        } else {
            GAUGE_NO_VALUE
        }
    }

    fn to_i64(&self) -> (r: i64) {
        let micros = (self.0 as u128 * 1_000_000) / 48000;
        if micros <= i64::MAX as u128 {
            micros as i64
        } else {
            GAUGE_NO_VALUE
        }
    }
}

/// A span of time in whole microseconds.
#[derive(Debug, Clone, Copy, PartialEq, Eq)]
pub struct Micros(pub u64);

impl GaugeValue for Micros {
    /// A span as its microseconds, or no observation when they exceed
    /// `i64::MAX`.
    open spec fn gauge_value(&self) -> i64 {
        if self.0 <= i64::MAX {
            self.0 as i64
        } else {
            GAUGE_NO_VALUE
        }
    }

    fn to_i64(&self) -> (r: i64) {
        if self.0 <= i64::MAX as u64 {
            self.0 as i64
        } else {
            GAUGE_NO_VALUE
        }
    }
}

/// The latest observation of a quantity, exported as a Prometheus gauge.
pub struct Gauge<T> {
    name: &'static str,
    value: i64,
    _phantom: core::marker::PhantomData<T>,
}

impl<T: GaugeValue> Gauge<T> {
    /// The gauge's name.
    pub closed spec fn name(&self) -> &'static str {
        self.name
    }

    /// The raw value the gauge holds.
    pub closed spec fn raw(&self) -> i64 {
        self.value
    }

    /// What the gauge reports: its last observation, or nothing when it has
    /// none or the observation was reported as no observation.
    pub open spec fn reading(&self) -> Option<i64> {
        if self.raw() == GAUGE_NO_VALUE {
            None
        } else {
            Some(self.raw())
        }
    }

    /// A gauge called `name` with no observation.
    pub fn new(name: &'static str) -> (r: Self)
        ensures
            r.name() == name,
            r.reading() is None,
    {
        Gauge { name, value: GAUGE_NO_VALUE, _phantom: core::marker::PhantomData }
    }

    /// The last observation, if there is one.
    pub fn get(&self) -> (r: Option<i64>)
        ensures
            r == self.reading(),
    {
        if self.value != GAUGE_NO_VALUE {
            Some(self.value)
        } else {
            None
        }
    }

    /// Records `value` as the gauge's observation.
    pub fn observe(&mut self, value: T)
        ensures
            final(self).name() == old(self).name(),
            final(self).raw() == value.gauge_value(),
    {
        self.value = value.to_i64();
    }

    /// The gauge in the Prometheus text exposition format; empty when it
    /// holds no observation.
    pub fn render(&self) -> (r: String)
        ensures
            r@ == gauge_text(self.name()@, self.reading()),
    {
        let mut s = String::new();
        match self.get() {
            Some(value) => {
                proof {
                    reveal_strlit("# TYPE ");
                    reveal_strlit(" gauge\n");
                    reveal_strlit(" ");
                }
                s.append("# TYPE ");
                s.append(self.name);
                s.append(" gauge\n");
                s.append(self.name);
                s.append(" ");
                push_signed_decimal(&mut s, value);
                assert(s@ =~= gauge_text(self.name()@, self.reading()));
            },
            None => {},
        }
        s
    }
}

} // verus!
