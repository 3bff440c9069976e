//! Hit points and lifetimes, in integer units: life in millihitpoints and
//! time to live in milliseconds.

use vstd::prelude::*;
use vstd::arithmetic::div_mod::{lemma_div_is_ordered, lemma_div_multiples_vanish, lemma_div_pos_is_pos};
use vstd::arithmetic::mul::lemma_mul_inequality;

verus! {

/// Largest life value, in millihitpoints.
pub const LIFE_LIMIT: i64 = 1_000_000_000;

/// Remaining and full hit points of an entity, in millihitpoints.
#[derive(Clone, Copy, Debug, PartialEq, Eq, Structural)]
pub struct Life {
    pub cur: i64,
    pub max: i64,
}

impl Life {
    pub open spec fn inv(&self) -> bool {
        0 < self.max <= LIFE_LIMIT && 0 <= self.cur <= self.max
    }

    /// An entity at full health.
    pub fn new(max: i64) -> (r: Self)
        requires
            0 < max <= LIFE_LIMIT,
        ensures
            r.inv(),
            r.cur == max,
            r.max == max,
    {
        Self { cur: max, max }
    }

    /// The remaining fraction of health, in permille.
    pub fn fraction(&self) -> (r: i64)
        requires
            self.inv(),
        ensures
            r == (self.cur as int * 1000) / (self.max as int),
            0 <= r <= 1000,
    {
        proof {
            let c: int = self.cur as int;
            let m: int = self.max as int;
            assert(0 <= c * 1000 <= 1_000_000_000_000) by (nonlinear_arith)
                requires 0 <= c <= 1_000_000_000;
            lemma_div_pos_is_pos(c * 1000, m);
            lemma_mul_inequality(c, m, 1000);
            assert(m * 1000 == 1000 * m);
            lemma_div_is_ordered(c * 1000, m * 1000, m);
            lemma_div_multiples_vanish(1000, m);
        }
        (self.cur * 1000) / self.max
    }
}

/// Remaining lifetime of a short-lived entity such as a projectile, in
/// milliseconds.
#[derive(Clone, Copy, Debug, PartialEq, Eq, Structural)]
pub struct TimeToLive {
    pub ttl: i64,
}

impl TimeToLive {
    pub open spec fn inv(&self) -> bool {
        0 <= self.ttl <= LIFE_LIMIT
    }

    pub fn new(ttl: i64) -> (r: Self)
        requires
            0 <= ttl <= LIFE_LIMIT,
        ensures
            r.inv(),
            r.ttl == ttl,
    {
        Self { ttl }
    }
}

} // verus!
