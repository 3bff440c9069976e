//! Weapon cooldown of the locally controlled entity.  The timer counts down
//! in milliseconds each fixed tick; firing reloads it to its full value.  A
//! server-reported remaining cooldown, shifted into local time, can overwrite
//! the current timer during reconciliation.

use vstd::prelude::*;

verus! {

/// Largest cooldown, in milliseconds, a cannon can hold.
pub const TIMEOUT_LIMIT_MS: i64 = 1_000_000_000;

/// Cooldown timer: remaining and full reload time, in milliseconds.  The
/// remaining time never goes below zero; the cannon is ready exactly when it
/// reaches zero.
#[derive(Clone, Copy, Debug, PartialEq, Eq, Structural)]
pub struct Cannon {
    pub cur_timeout: i64,
    pub max_timeout: i64,
}

/// A raw timer value forced into the range a cannon keeps: negative values
/// (a cooldown that already expired elsewhere) become zero.
pub open spec fn spec_timeout_clip(t: int) -> int {
    if t < 0 {
        0
    } else if t > TIMEOUT_LIMIT_MS {
        TIMEOUT_LIMIT_MS as int
    } else {
        t
    }
}

impl Cannon {
    pub open spec fn inv(&self) -> bool {
        0 <= self.cur_timeout <= TIMEOUT_LIMIT_MS && 0 <= self.max_timeout <= TIMEOUT_LIMIT_MS
    }

    /// A cannon that must cool down once before its first shot.
    pub fn new(timeout: i64) -> (r: Self)
        requires
            0 <= timeout <= TIMEOUT_LIMIT_MS,
        ensures
            r.inv(),
            r.cur_timeout == timeout,
            r.max_timeout == timeout,
    {
        Self { cur_timeout: timeout, max_timeout: timeout }
    }

    /// Overwrite the remaining cooldown, e.g. with a server-reported value
    /// shifted into local time; values outside the representable range are
    /// clipped.
    pub fn set_current_timeout(&mut self, timeout: i64)
        requires
            old(self).inv(),
        ensures
            final(self).inv(),
            final(self).cur_timeout == spec_timeout_clip(timeout as int),
            final(self).max_timeout == old(self).max_timeout,
    {
        self.cur_timeout = if timeout < 0 {
            0
        } else if timeout > TIMEOUT_LIMIT_MS {
            TIMEOUT_LIMIT_MS
        } else {
            timeout
        };
    }

    /// One fixed tick of cooling down: the remaining time drops by `dt`
    /// milliseconds, stopping at zero.
    pub fn update(&mut self, dt: i64)
        requires
            old(self).inv(),
            0 < dt,
        ensures
            final(self).inv(),
            final(self).max_timeout == old(self).max_timeout,
            final(self).cur_timeout == (if old(self).cur_timeout > dt {
                old(self).cur_timeout - dt
            } else {
                0
            }),
    {
        self.cur_timeout = if self.cur_timeout > dt {
            self.cur_timeout - dt
        } else {
            0
        };
    }

    /// Whether the cooldown has fully elapsed.
    pub fn ready_to_fire(&self) -> (r: bool)
        requires
            self.inv(),
        ensures
            r == (self.cur_timeout == 0),
    {
        self.cur_timeout == 0
    }

    /// Start a full cooldown after firing.
    pub fn reload(&mut self)
        requires
            old(self).inv(),
        ensures
            final(self).inv(),
            final(self).cur_timeout == old(self).max_timeout,
            final(self).max_timeout == old(self).max_timeout,
    {
        self.cur_timeout = self.max_timeout;
    }
}

} // verus!
