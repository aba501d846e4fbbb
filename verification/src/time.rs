//! Capture instants, zero-based presentation timestamps and the normalizer
//! that turns the first into the second.

use vstd::prelude::*;

verus! {

/// A point on the capture source's monotonic clock, in nanoseconds since an
/// arbitrary origin.
#[derive(Clone, Copy, Debug, PartialEq, Eq, Structural)]
pub struct MonotonicInstant {
    nanos: u64,
}

impl View for MonotonicInstant {
    type V = int;

    closed spec fn view(&self) -> int {
        self.nanos as int
    }
}

impl MonotonicInstant {
    /// The instant `nanos` nanoseconds after the clock's origin.
    pub fn from_nanos(nanos: u64) -> (r: Self)
        ensures
            r@ == nanos,
    {
        MonotonicInstant { nanos }
    }

    /// Nanoseconds since the clock's origin.
    pub fn as_nanos(&self) -> (n: u64)
        ensures
            n == self@,
    {
        self.nanos
    }
}

/// Time since the first frame of a stream, in nanoseconds.
#[derive(Clone, Copy, Debug, PartialEq, Eq, Structural)]
pub struct PresentationTimestamp {
    nanos: u64,
}

impl View for PresentationTimestamp {
    type V = int;

    closed spec fn view(&self) -> int {
        self.nanos as int
    }
}

impl PresentationTimestamp {
    /// The timestamp of a stream's first frame.
    pub fn zero() -> (r: Self)
        ensures
            r@ == 0,
    {
        PresentationTimestamp { nanos: 0 }
    }

    /// The timestamp `nanos` nanoseconds into the stream.
    pub fn from_nanos(nanos: u64) -> (r: Self)
        ensures
            r@ == nanos,
    {
        PresentationTimestamp { nanos }
    }

    /// The timestamp in nanoseconds.
    pub fn as_nanos(&self) -> (n: u64)
        ensures
            n == self@,
    {
        self.nanos
    }

    /// The timestamp in whole microseconds, rounded down.
    pub fn as_micros(&self) -> (n: i64)
        ensures
            n == self@ / 1000,
    {
        (self.nanos / 1000) as i64
    }

    /// The timestamp in whole milliseconds, rounded down.
    pub fn as_millis(&self) -> (n: i64)
        ensures
            n == self@ / 1000000,
    {
        (self.nanos / 1000000) as i64
    }

    /// The timestamp in whole ticks of 100 nanoseconds, rounded down.
    pub fn as_ticks(&self) -> (n: i64)
        ensures
            n == self@ / 100,
    {
        (self.nanos / 100) as i64
    }
}

/// What a normalizer remembers between frames: the capture time of the
/// first frame, once there was one, and the largest timestamp handed out.
pub struct NormalizerState {
    pub anchor: Option<int>,
    pub high: int,
}

impl NormalizerState {
    /// The state before any frame.
    pub open spec fn initial() -> Self {
        NormalizerState { anchor: None, high: 0 }
    }

    /// The timestamp given to a frame captured at `t`.
    ///
    /// The first frame gets zero. A later frame gets its distance from the
    /// first one, unless that would fall below a timestamp already handed
    /// out; then it gets that earlier timestamp again.
    pub open spec fn stamp(self, t: int) -> int {
        match self.anchor {
            None => 0,
            Some(a) => if t - a > self.high {
                t - a
            } else {
                self.high
            },
        }
    }

    /// The state after a frame captured at `t`.
    pub open spec fn advance(self, t: int) -> Self {
        match self.anchor {
            None => NormalizerState { anchor: Some(t), high: 0 },
            Some(a) => NormalizerState { anchor: Some(a), high: self.stamp(t) },
        }
    }

    /// The timestamps given to frames captured at `ts`, in that order.
    pub open spec fn stamps(self, ts: Seq<int>) -> Seq<int>
        decreases ts.len(),
    {
        if ts.len() == 0 {
            Seq::empty()
        } else {
            seq![self.stamp(ts[0])] + self.advance(ts[0]).stamps(ts.drop_first())
        }
    }
}

/// Converts capture instants into presentation timestamps relative to the
/// first frame seen.
pub struct TimestampNormalizer {
    anchor: Option<MonotonicInstant>,
    high: PresentationTimestamp,
}

impl View for TimestampNormalizer {
    type V = NormalizerState;

    closed spec fn view(&self) -> NormalizerState {
        NormalizerState {
            anchor: match self.anchor {
                None => None,
                Some(a) => Some(a@),
            },
            high: self.high@,
        }
    }
}

impl TimestampNormalizer {
    /// A normalizer that has seen no frame.
    pub fn new() -> (r: Self)
        ensures
            r@ == NormalizerState::initial(),
    {
        TimestampNormalizer { anchor: None, high: PresentationTimestamp::zero() }
    }

    /// The capture time of the first frame, if there was one.
    pub fn anchor(&self) -> (r: Option<MonotonicInstant>)
        ensures
            r is Some == self@.anchor is Some,
            r is Some ==> r->0@ == self@.anchor->0,
    {
        self.anchor
    }

    /// The presentation timestamp of a frame captured at `capture_time`.
    pub fn normalize(&mut self, capture_time: MonotonicInstant) -> (p: PresentationTimestamp)
        ensures
            p@ == old(self)@.stamp(capture_time@),
            final(self)@ == old(self)@.advance(capture_time@),
    {
        match self.anchor {
            None => {
                self.anchor = Some(capture_time);
                self.high = PresentationTimestamp::zero();
                self.high
            },
            Some(a) => {
                let t: u64 = capture_time.as_nanos();
                let a0: u64 = a.as_nanos();
                if t >= a0 && t - a0 > self.high.as_nanos() {
                    self.high = PresentationTimestamp::from_nanos(t - a0);
                }
                self.high
            },
        }
    }
}

/// Timestamps never run backwards: whatever the capture times, a frame's
/// timestamp is at least the largest one handed out before it, and the
/// state afterwards remembers it.
pub proof fn lemma_stamp_never_decreases(s: NormalizerState, t: int)
    requires
        s.high >= 0,
    ensures
        s.stamp(t) >= 0,
        s.anchor is Some ==> s.stamp(t) >= s.high,
        s.advance(t).high == s.stamp(t),
        s.advance(t).anchor is Some,
{
}

/// For any capture times at all, the timestamps come out non-negative and
/// in non-decreasing order.
pub proof fn lemma_stamps_monotonic(s: NormalizerState, ts: Seq<int>)
    requires
        s.high >= 0,
        s.anchor is None ==> s.high == 0,
    ensures
        s.stamps(ts).len() == ts.len(),
        forall|i: int| 0 <= i < ts.len() ==> s.stamps(ts)[i] >= s.high,
        forall|i: int, j: int| 0 <= i <= j < ts.len() ==> s.stamps(ts)[i] <= s.stamps(ts)[j],
    decreases ts.len(),
{
    if ts.len() > 0 {
        let next = s.advance(ts[0]);
        let rest = ts.drop_first();
        lemma_stamps_monotonic(next, rest);
        let out = s.stamps(ts);
        assert(out == seq![s.stamp(ts[0])] + next.stamps(rest));
        assert forall|i: int| 0 <= i < ts.len() implies out[i] >= s.high by {
            if i > 0 {
                assert(out[i] == next.stamps(rest)[i - 1]);
            }
        }
        assert forall|i: int, j: int| 0 <= i <= j < ts.len() implies out[i] <= out[j] by {
            if i > 0 {
                assert(out[i] == next.stamps(rest)[i - 1]);
                assert(out[j] == next.stamps(rest)[j - 1]);
            } else if j > 0 {
                assert(out[j] == next.stamps(rest)[j - 1]);
            }
        }
    }
}

/// If the first of the non-decreasing capture times `ts` gets its distance
/// from `a` and leaves the normalizer anchored at `a`, every one of them
/// gets its distance from `a`.
proof fn lemma_stamps_from(s: NormalizerState, a: int, ts: Seq<int>)
    requires
        forall|i: int, j: int| 0 <= i <= j < ts.len() ==> ts[i] <= ts[j],
        ts.len() > 0 ==> s.stamp(ts[0]) == ts[0] - a && s.advance(ts[0]).anchor == Some(a),
    ensures
        s.stamps(ts).len() == ts.len(),
        forall|i: int| 0 <= i < ts.len() ==> s.stamps(ts)[i] == ts[i] - a,
    decreases ts.len(),
{
    if ts.len() > 0 {
        let next = s.advance(ts[0]);
        let rest = ts.drop_first();
        assert forall|i: int, j: int| 0 <= i <= j < rest.len() implies rest[i] <= rest[j] by {
            assert(rest[i] == ts[i + 1]);
            assert(rest[j] == ts[j + 1]);
        }
        if rest.len() > 0 {
            assert(rest[0] == ts[1]);
        }
        lemma_stamps_from(next, a, rest);
        let out = s.stamps(ts);
        assert(out == seq![s.stamp(ts[0])] + next.stamps(rest));
        assert forall|i: int| 0 <= i < ts.len() implies out[i] == ts[i] - a by {
            if i > 0 {
                assert(out[i] == next.stamps(rest)[i - 1]);
                assert(rest[i - 1] == ts[i]);
            }
        }
    }
}

/// For capture times `t0 <= t1 <= ... <= tn` fed to a fresh normalizer, the
/// timestamps are `0 = p0 <= p1 <= ... <= pn` with `pi = ti - t0`.
pub proof fn lemma_normalize_sorted(ts: Seq<int>)
    requires
        forall|i: int, j: int| 0 <= i <= j < ts.len() ==> ts[i] <= ts[j],
    ensures
        NormalizerState::initial().stamps(ts).len() == ts.len(),
        forall|i: int|
            0 <= i < ts.len() ==> NormalizerState::initial().stamps(ts)[i] == ts[i] - ts[0],
        forall|i: int, j: int|
            0 <= i <= j < ts.len() ==> NormalizerState::initial().stamps(ts)[i]
                <= NormalizerState::initial().stamps(ts)[j],
        ts.len() > 0 ==> NormalizerState::initial().stamps(ts)[0] == 0,
{
    lemma_stamps_from(NormalizerState::initial(), ts[0], ts);
}

} // verus!
