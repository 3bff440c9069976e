//! Per-remote-entity ring buffer of timestamped body snapshots, sampled at a
//! render timestamp a fixed offset in the past so that two bracketing
//! snapshots normally exist.  Sampling interpolates, never extrapolates:
//! before the oldest snapshot the oldest pose is returned unchanged, and with
//! fewer than two snapshots the single available pose (or nothing) is
//! returned.

use vstd::prelude::*;
use crate::body::{spec_interpolate_to, Body};
use crate::clock::TIME_LIMIT_MS;
use crate::num::{lemma_lerp_bounds, spec_lerp};
use vstd::arithmetic::div_mod::lemma_div_of0;

verus! {

/// One received snapshot: the local receive timestamp and the body carried by
/// the update.
#[derive(Clone, Copy, Debug, PartialEq, Eq)]
pub struct InterpolationPosition {
    pub timestamp: u64,
    pub body: Body,
}

/// Time-ordered buffer of snapshots of one remote entity.
pub struct InterpolationBuffer {
    pub buf: Vec<InterpolationPosition>,
}

/// The fraction numerator used to sample at time `t` between snapshots at
/// `t0 < t1`: zero before `t0`, else `t - t0`.
pub open spec fn spec_sample_num(t: int, t0: int) -> int {
    if t <= t0 {
        0
    } else {
        t - t0
    }
}

/// How many snapshots sampling at `t` evicts from the front: while at least
/// two remain and the second is not after `t`, the first is dropped.
pub open spec fn spec_trim_count(s: Seq<InterpolationPosition>, t: u64) -> int
    decreases s.len(),
{
    if s.len() < 2 || s[1].timestamp > t {
        0
    } else {
        1 + spec_trim_count(s.subrange(1, s.len() as int), t)
    }
}

/// The buffer after sampling at `t` has evicted stale snapshots.
pub open spec fn spec_trimmed(s: Seq<InterpolationPosition>, t: u64) -> Seq<InterpolationPosition> {
    s.subrange(spec_trim_count(s, t), s.len() as int)
}

/// The pose sampling at `t` returns: nothing from an empty buffer, the
/// single pose unchanged, or the interpolation between the two oldest
/// retained snapshots.
pub open spec fn spec_sample(s: Seq<InterpolationPosition>, t: u64) -> Option<Body> {
    let kept: Seq<InterpolationPosition> = spec_trimmed(s, t);
    if kept.len() == 0 {
        None
    } else if kept.len() == 1 {
        Some(kept[0].body)
    } else {
        let t0: int = kept[0].timestamp as int;
        let t1: int = kept[1].timestamp as int;
        Some(spec_interpolate_to(
            kept[0].body,
            kept[1].body,
            spec_sample_num(t as int, t0),
            t1 - t0,
        ))
    }
}

/// Any count with "everything dropped was stale" and "the next snapshot is
/// fresh or missing" is the eviction count.
proof fn lemma_trim_count_unique(s: Seq<InterpolationPosition>, t: u64, k: int)
    requires
        0 <= k <= s.len(),
        k > 0 ==> k < s.len(),
        forall|i: int| 0 <= i < k ==> #[trigger] s[i + 1].timestamp <= t,
        s.len() - k < 2 || s[k + 1].timestamp > t,
    ensures
        k == spec_trim_count(s, t),
    decreases s.len(),
{
    if k == 0 {
        if s.len() >= 2 {
            assert(s[1].timestamp > t);
        }
    } else {
        assert(s[0int + 1].timestamp <= t);
        let tail: Seq<InterpolationPosition> = s.subrange(1, s.len() as int);
        assert forall|i: int| 0 <= i < k - 1 implies #[trigger] tail[i + 1].timestamp <= t by {
            assert(tail[i + 1] == s[i + 2]);
            assert(s[(i + 1int) + 1].timestamp <= t);
        }
        if !(tail.len() - (k - 1) < 2) {
            assert(tail[k] == s[k + 1]);
        }
        lemma_trim_count_unique(tail, t, k - 1);
    }
}

impl InterpolationBuffer {
    /// Snapshots are strictly ordered by receive time, timestamps stay below
    /// the global time bound, and every body is well formed.
    pub open spec fn inv(&self) -> bool {
        &&& forall|i: int, j: int|
            0 <= i < j < self.buf@.len() ==> #[trigger] self.buf@[i].timestamp
                < #[trigger] self.buf@[j].timestamp
        &&& forall|i: int|
            0 <= i < self.buf@.len() ==> #[trigger] self.buf@[i].timestamp <= TIME_LIMIT_MS
        &&& forall|i: int| 0 <= i < self.buf@.len() ==> (#[trigger] self.buf@[i].body).inv()
    }

    pub fn new() -> (r: Self)
        ensures
            r.inv(),
            r.buf@.len() == 0,
    {
        Self { buf: Vec::new() }
    }

    /// An identical buffer, element for element.
    pub fn duplicate(&self) -> (r: Self)
        ensures
            r.buf@ == self.buf@,
    {
        let mut out: Vec<InterpolationPosition> = Vec::new();
        let mut idx: usize = 0;
        while idx < self.buf.len()
            invariant
                idx <= self.buf@.len(),
                out@ == self.buf@.subrange(0, idx as int),
            decreases self.buf@.len() - idx,
        {
            out.push(self.buf[idx]);
            proof {
                assert(out@ =~= self.buf@.subrange(0, idx + 1 as int));
            }
            idx = idx + 1;
        }
        proof {
            assert(out@ =~= self.buf@);
        }
        InterpolationBuffer { buf: out }
    }

    /// Append a snapshot received at `timestamp`.  To keep the buffer
    /// time-ordered, a snapshot not strictly newer than the last one is
    /// ignored; the result says whether the snapshot was kept.
    pub fn add(&mut self, body: Body, timestamp: u64) -> (kept: bool)
        requires
            old(self).inv(),
            body.inv(),
            timestamp <= TIME_LIMIT_MS,
        ensures
            final(self).inv(),
            kept == (old(self).buf@.len() == 0
                || old(self).buf@.last().timestamp < timestamp),
            kept ==> final(self).buf@ == old(self).buf@.push(
                InterpolationPosition { timestamp, body },
            ),
            !kept ==> final(self).buf@ == old(self).buf@,
    {
        let n: usize = self.buf.len();
        if n == 0 || self.buf[n - 1].timestamp < timestamp {
            self.buf.push(InterpolationPosition { timestamp, body });
            true
        } else {
            false
        }
    }

    /// Sample the buffered snapshots at `timestamp`: evict snapshots from the
    /// front while the second-oldest is still at or before the render time,
    /// then interpolate between the two oldest remaining.  With a single
    /// snapshot that pose is returned unchanged; with none, nothing.
    pub fn interpolate(&mut self, timestamp: u64) -> (r: Option<Body>)
        requires
            old(self).inv(),
        ensures
            final(self).inv(),
            final(self).buf@ == spec_trimmed(old(self).buf@, timestamp),
            r == spec_sample(old(self).buf@, timestamp),
            r is Some ==> r->Some_0.inv(),
    {
        let ghost orig: Seq<InterpolationPosition> = self.buf@;
        let orig_len: usize = self.buf.len();
        proof {
            assert(orig.subrange(0, orig.len() as int) =~= orig);
        }
        let mut dropped: usize = 0;
        loop
            invariant
                self.inv(),
                dropped <= orig.len() <= usize::MAX,
                dropped > 0 ==> dropped < orig.len(),
                orig.len() == orig_len,
                self.buf@ == orig.subrange(dropped as int, orig.len() as int),
                forall|i: int|
                    0 <= i < dropped ==> #[trigger] orig[i + 1].timestamp <= timestamp,
            ensures
                self.inv(),
                dropped <= orig.len(),
                dropped > 0 ==> dropped < orig.len(),
                self.buf@ == orig.subrange(dropped as int, orig.len() as int),
                forall|i: int|
                    0 <= i < dropped ==> #[trigger] orig[i + 1].timestamp <= timestamp,
                self.buf@.len() >= 2 ==> self.buf@[1].timestamp > timestamp,
            decreases orig.len() - dropped,
        {
            if self.buf.len() < 2 {
                break;
            }
            if self.buf[1].timestamp > timestamp {
                break;
            }
            self.buf.remove(0);
            proof {
                assert(self.buf@ =~= orig.subrange(dropped + 1 as int, orig.len() as int));
            }
            dropped = dropped + 1;
        }
        proof {
            if self.buf@.len() >= 2 {
                assert(self.buf@[1] == orig[dropped + 1]);
            }
            lemma_trim_count_unique(orig, timestamp, dropped as int);
            assert(self.buf@ =~= spec_trimmed(orig, timestamp));
        }
        let n: usize = self.buf.len();
        if n == 0 {
            None
        } else if n == 1 {
            Some(self.buf[0].body)
        } else {
            let first: InterpolationPosition = self.buf[0];
            let second: InterpolationPosition = self.buf[1];
            let t0: u64 = first.timestamp;
            let t1: u64 = second.timestamp;
            let den: u64 = t1 - t0;
            let num: u64 = if timestamp <= t0 {
                0
            } else {
                timestamp - t0
            };
            let mut body: Body = first.body;
            body.interpolate_to(&second.body, num as i64, den as i64);
            Some(body)
        }
    }
}

/// A sampled pose always lies between the two snapshots it interpolates:
/// each position coordinate and the heading are between the corresponding
/// values of the bracketing bodies, and a fraction of zero returns the older
/// snapshot's pose exactly.
pub proof fn lemma_sample_on_segment(b0: Body, b1: Body, num: int, den: int)
    requires
        0 < den,
        0 <= num <= den,
    ensures
        ({
            let r: Body = spec_interpolate_to(b0, b1, num, den);
            &&& (b0.pos_x <= b1.pos_x ==> b0.pos_x <= r.pos_x <= b1.pos_x)
            &&& (b0.pos_x > b1.pos_x ==> b1.pos_x <= r.pos_x <= b0.pos_x)
            &&& (b0.pos_y <= b1.pos_y ==> b0.pos_y <= r.pos_y <= b1.pos_y)
            &&& (b0.pos_y > b1.pos_y ==> b1.pos_y <= r.pos_y <= b0.pos_y)
            &&& (b0.rot <= b1.rot ==> b0.rot <= r.rot <= b1.rot)
            &&& (b0.rot > b1.rot ==> b1.rot <= r.rot <= b0.rot)
            &&& (num == 0 ==> r == b0)
        }),
{
    lemma_lerp_bounds(b0.pos_x as int, b1.pos_x as int, num, den);
    lemma_lerp_bounds(b0.pos_y as int, b1.pos_y as int, num, den);
    lemma_lerp_bounds(b0.rot as int, b1.rot as int, num, den);
    if num == 0 {
        lemma_div_of0(den);
        lemma_lerp_zero(b0.pos_x as int, b1.pos_x as int, den);
        lemma_lerp_zero(b0.pos_y as int, b1.pos_y as int, den);
        lemma_lerp_zero(b0.rot as int, b1.rot as int, den);
    }
}

/// Interpolating by a fraction of zero returns the starting value.
proof fn lemma_lerp_zero(a: int, b: int, den: int)
    requires
        0 < den,
    ensures
        spec_lerp(a, b, 0, den) == a,
{
    lemma_div_of0(den);
    if b >= a {
        assert((b - a) * 0 == 0);
        assert(((b - a) * 0) / den == 0);
    } else {
        assert((a - b) * 0 == 0);
        assert(((a - b) * 0) / den == 0);
    }
}

} // verus!
