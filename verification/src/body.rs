//! Physical state of a simulated entity and the deterministic fixed-tick
//! kinematics that advance it: thrust along the heading, velocity-clamped
//! integration, rotation, and reflection at the world bounds.
//!
//! Positions and velocities are in thousandths of a world unit, headings in
//! milliradians, times in milliseconds.  Every step is an exact integer
//! function of its inputs, which is what makes reconciliation replay
//! reproduce the predicted state bit for bit.

use vstd::prelude::*;
use vstd::arithmetic::div_mod::lemma_div_multiples_vanish;
use crate::angle::{
    cos_milli,
    sin_milli,
    spec_cos_milli,
    spec_sin_milli,
    spec_wrap_angle,
    wrap_angle,
    PI_MRAD,
    TAU_MRAD,
};
use crate::num::{
    clamp_i64,
    is_isqrt,
    isqrt_u64,
    lemma_mul_div_tz_le,
    lerp_i64,
    mul_div_tz,
    spec_clamp,
    spec_isqrt,
    spec_lerp,
    spec_mul_div_tz,
};

verus! {

/// Maximum physical speed, in milliunits per second; velocity magnitude is
/// clamped to this after every integration step.
pub const MAX_VEL: i64 = 250_000;

/// Bound on each velocity component a body may ever hold.
pub const VEL_LIMIT: i64 = 1_000_000_000;

/// Bound on each position component a body may ever hold.
pub const POS_LIMIT: i64 = 1_000_000_000_000;

/// Bound on angular velocity, in milliradians per second.
pub const RVEL_LIMIT: i64 = 1_000_000_000;

/// Bound on the collision size of a body, in milliunits.
pub const SIZE_LIMIT: i64 = 1_000_000;

/// Bound on acceleration rates, in milliunits per second squared.
pub const ACCEL_LIMIT: i64 = 1_000_000;

/// Longest fixed tick the kinematics accept, in milliseconds.
pub const DT_LIMIT: i64 = 1000;

/// Forward acceleration of the player ship, in milliunits per second squared.
pub const PLAYER_ACCELERATION: i64 = 60_000;

/// Braking deceleration of the player ship, in milliunits per second squared.
pub const PLAYER_DECELERATION: i64 = 10_000;

/// Physical state of a simulated entity: position, velocity, heading,
/// angular velocity, and collision size.
#[derive(Clone, Copy, Debug, PartialEq, Eq, Structural)]
pub struct Body {
    /// Position, milliunits.
    pub pos_x: i64,
    pub pos_y: i64,
    /// Velocity, milliunits per second.
    pub vel_x: i64,
    pub vel_y: i64,
    /// Heading, milliradians in `[0, TAU_MRAD)`.
    pub rot: i64,
    /// Angular velocity, milliradians per second.
    pub rvel: i64,
    /// Collision size, milliunits.
    pub size: i64,
}

/// Acceleration rates of an entity that can thrust and brake.
#[derive(Clone, Copy, Debug, PartialEq, Eq, Structural)]
pub struct Accelerator {
    pub accel: i64,
    pub decel: i64,
}

impl Accelerator {
    pub open spec fn inv(&self) -> bool {
        0 <= self.accel <= ACCEL_LIMIT && 0 <= self.decel <= ACCEL_LIMIT
    }

    pub fn new(accel: i64, decel: i64) -> (r: Self)
        requires
            0 <= accel <= ACCEL_LIMIT,
            0 <= decel <= ACCEL_LIMIT,
        ensures
            r.inv(),
            r.accel == accel,
            r.decel == decel,
    {
        Self { accel, decel }
    }
}

impl Body {
    /// Every field within the range the kinematics preserve.
    pub open spec fn inv(&self) -> bool {
        &&& -POS_LIMIT <= self.pos_x <= POS_LIMIT
        &&& -POS_LIMIT <= self.pos_y <= POS_LIMIT
        &&& -VEL_LIMIT <= self.vel_x <= VEL_LIMIT
        &&& -VEL_LIMIT <= self.vel_y <= VEL_LIMIT
        &&& 0 <= self.rot < TAU_MRAD
        &&& -RVEL_LIMIT <= self.rvel <= RVEL_LIMIT
        &&& 0 <= self.size <= SIZE_LIMIT
    }

    pub fn new(
        pos_x: i64,
        pos_y: i64,
        vel_x: i64,
        vel_y: i64,
        rot: i64,
        rvel: i64,
        size: i64,
    ) -> (r: Self)
        requires
            -POS_LIMIT <= pos_x <= POS_LIMIT,
            -POS_LIMIT <= pos_y <= POS_LIMIT,
            -VEL_LIMIT <= vel_x <= VEL_LIMIT,
            -VEL_LIMIT <= vel_y <= VEL_LIMIT,
            0 <= rot < TAU_MRAD,
            -RVEL_LIMIT <= rvel <= RVEL_LIMIT,
            0 <= size <= SIZE_LIMIT,
        ensures
            r.inv(),
            r == (Body { pos_x, pos_y, vel_x, vel_y, rot, rvel, size }),
    {
        Self { pos_x, pos_y, vel_x, vel_y, rot, rvel, size }
    }
}

impl Default for Body {
    /// A body at rest at the origin.
    fn default() -> (r: Self)
        ensures
            r.inv(),
            r == (Body { pos_x: 0, pos_y: 0, vel_x: 0, vel_y: 0, rot: 0, rvel: 0, size: 0 }),
    {
        Self { pos_x: 0, pos_y: 0, vel_x: 0, vel_y: 0, rot: 0, rvel: 0, size: 0 }
    }
}

/// The velocity with its magnitude clamped to `MAX_VEL`: unchanged when the
/// squared norm is within bounds, otherwise both components scaled by
/// `MAX_VEL / |v|` (rounded toward zero).
pub open spec fn spec_clamp_speed(vx: int, vy: int) -> (int, int) {
    let n: int = vx * vx + vy * vy;
    if n > (MAX_VEL as int) * (MAX_VEL as int) {
        let s: int = spec_isqrt(n as nat) as int;
        (spec_mul_div_tz(vx, MAX_VEL as int, s), spec_mul_div_tz(vy, MAX_VEL as int, s))
    } else {
        (vx, vy)
    }
}

/// One position integration step: clamp the speed, then advance the position
/// by `vel * dt / 1000`, saturating at the position limit.
pub open spec fn spec_update_position(b: Body, dt: int) -> Body {
    let cv: (int, int) = spec_clamp_speed(b.vel_x as int, b.vel_y as int);
    Body {
        pos_x: spec_clamp(b.pos_x + spec_mul_div_tz(cv.0, dt, 1000), POS_LIMIT as int) as i64,
        pos_y: spec_clamp(b.pos_y + spec_mul_div_tz(cv.1, dt, 1000), POS_LIMIT as int) as i64,
        vel_x: cv.0 as i64,
        vel_y: cv.1 as i64,
        rot: b.rot,
        rvel: b.rvel,
        size: b.size,
    }
}

/// One rotation step: the heading advances by `rvel * dt / 1000` times the
/// turn direction and is normalized into `[0, TAU_MRAD)`.
pub open spec fn spec_rotate(b: Body, dt: int, direction: int) -> Body {
    Body {
        rot: spec_wrap_angle(
            b.rot + spec_mul_div_tz(b.rvel as int, dt, 1000) * direction,
        ) as i64,
        ..b
    }
}

/// One thrust step: no input leaves the body unchanged; otherwise the
/// velocity gains `heading * rate * dt`, where reverse input uses the
/// opposite heading and the braking rate, saturating at the velocity limit.
pub open spec fn spec_accelerate(b: Body, dt: int, direction: int, accel: int, decel: int) -> Body {
    if direction == 0 {
        b
    } else {
        let ang: int = if direction < 0 {
            b.rot as int
        } else {
            spec_wrap_angle(b.rot + PI_MRAD)
        };
        let rate: int = if direction < 0 {
            accel
        } else {
            decel
        };
        Body {
            vel_x: spec_clamp(
                b.vel_x + spec_mul_div_tz(spec_sin_milli(ang) * rate, dt, 1_000_000),
                VEL_LIMIT as int,
            ) as i64,
            vel_y: spec_clamp(
                b.vel_y + spec_mul_div_tz(spec_cos_milli(ang) * rate, dt, 1_000_000),
                VEL_LIMIT as int,
            ) as i64,
            ..b
        }
    }
}

/// Reflection at the world bounds: when the collision circle has crossed a
/// bound and the velocity still points outward, the velocity component along
/// the bound's normal is negated.  Position is never teleported.
pub open spec fn spec_wrap_position(b: Body, xb: int, yb: int) -> Body {
    let half: int = (b.size as int) / 2;
    let cx: int = b.pos_x + (if b.pos_x >= 0 { half } else { -half });
    let cy: int = b.pos_y + (if b.pos_y >= 0 { half } else { -half });
    if cx > xb {
        if b.vel_x >= 0 {
            Body { vel_x: (-b.vel_x) as i64, ..b }
        } else {
            b
        }
    } else if cx < -xb {
        if b.vel_x <= 0 {
            Body { vel_x: (-b.vel_x) as i64, ..b }
        } else {
            b
        }
    } else if cy > yb {
        if b.vel_y >= 0 {
            Body { vel_y: (-b.vel_y) as i64, ..b }
        } else {
            b
        }
    } else if cy < -yb {
        if b.vel_y <= 0 {
            Body { vel_y: (-b.vel_y) as i64, ..b }
        } else {
            b
        }
    } else {
        b
    }
}

/// Interpolation of position and heading a fraction `num / den` of the way
/// toward `other`; velocity, spin and size keep the receiver's values.
pub open spec fn spec_interpolate_to(b: Body, other: Body, num: int, den: int) -> Body {
    Body {
        pos_x: spec_lerp(b.pos_x as int, other.pos_x as int, num, den) as i64,
        pos_y: spec_lerp(b.pos_y as int, other.pos_y as int, num, den) as i64,
        rot: spec_lerp(b.rot as int, other.rot as int, num, den) as i64,
        ..b
    }
}

impl Body {
    /// Clamp the speed to `MAX_VEL`, then integrate velocity into position
    /// over `dt` milliseconds, saturating at the position limit.
    pub fn update_position(&mut self, dt: i64)
        requires
            old(self).inv(),
            0 < dt <= DT_LIMIT,
        ensures
            final(self).inv(),
            *final(self) == spec_update_position(*old(self), dt as int),
    {
        let vx: i64 = self.vel_x;
        let vy: i64 = self.vel_y;
        proof {
            assert(0 <= vx as int * vx as int <= 1_000_000_000_000_000_000
                && 0 <= vy as int * vy as int <= 1_000_000_000_000_000_000) by (nonlinear_arith)
                requires
                    -1_000_000_000 <= vx <= 1_000_000_000,
                    -1_000_000_000 <= vy <= 1_000_000_000;
        }
        let norm_sq: i64 = vx * vx + vy * vy;
        if norm_sq > MAX_VEL * MAX_VEL {
            let s: u64 = isqrt_u64(norm_sq as u64);
            proof {
                assert(MAX_VEL < s + 1) by (nonlinear_arith)
                    requires
                        is_isqrt(s as int, norm_sq as int),
                        norm_sq > (MAX_VEL as int) * (MAX_VEL as int),
                        0 <= s,
                        0 < MAX_VEL;
                assert(vx <= s && -vx <= s && vy <= s && -vy <= s) by (nonlinear_arith)
                    requires
                        is_isqrt(s as int, norm_sq as int),
                        norm_sq == vx as int * vx as int + vy as int * vy as int,
                        0 <= s;
                lemma_mul_div_tz_le(vx as int, MAX_VEL as int, s as int, s as int, MAX_VEL as int);
                lemma_mul_div_tz_le(vy as int, MAX_VEL as int, s as int, s as int, MAX_VEL as int);
                assert(s as int * MAX_VEL == MAX_VEL as int * s);
                lemma_div_multiples_vanish(MAX_VEL as int, s as int);
            }
            self.vel_x = mul_div_tz(vx, MAX_VEL, s as i64);
            self.vel_y = mul_div_tz(vy, MAX_VEL, s as i64);
        }
        proof {
            lemma_mul_div_tz_le(
                self.vel_x as int, dt as int, 1000, VEL_LIMIT as int, DT_LIMIT as int,
            );
            lemma_mul_div_tz_le(
                self.vel_y as int, dt as int, 1000, VEL_LIMIT as int, DT_LIMIT as int,
            );
        }
        let dx: i64 = mul_div_tz(self.vel_x, dt, 1000);
        let dy: i64 = mul_div_tz(self.vel_y, dt, 1000);
        self.pos_x = clamp_i64(self.pos_x + dx, POS_LIMIT);
        self.pos_y = clamp_i64(self.pos_y + dy, POS_LIMIT);
    }

    /// Advance the heading by the angular velocity times the turn direction
    /// over `dt` milliseconds.
    pub fn rotate(&mut self, dt: i64, direction: i64)
        requires
            old(self).inv(),
            0 < dt <= DT_LIMIT,
            -1 <= direction <= 1,
        ensures
            final(self).inv(),
            *final(self) == spec_rotate(*old(self), dt as int, direction as int),
    {
        proof {
            lemma_mul_div_tz_le(
                self.rvel as int, dt as int, 1000, RVEL_LIMIT as int, DT_LIMIT as int,
            );
        }
        let step: i64 = mul_div_tz(self.rvel, dt, 1000);
        proof {
            assert(-1_000_000_000 <= step as int * direction as int <= 1_000_000_000)
                by (nonlinear_arith)
                requires
                    -1_000_000_000 <= step <= 1_000_000_000,
                    -1 <= direction <= 1;
        }
        let delta: i64 = step * direction;
        self.rot = wrap_angle(self.rot + delta);
    }

    /// Apply thrust (or braking) along the heading for `dt` milliseconds.
    pub fn accelerate(&mut self, dt: i64, direction: i64, accel: i64, decel: i64)
        requires
            old(self).inv(),
            0 < dt <= DT_LIMIT,
            -1 <= direction <= 1,
            0 <= accel <= ACCEL_LIMIT,
            0 <= decel <= ACCEL_LIMIT,
        ensures
            final(self).inv(),
            *final(self) == spec_accelerate(
                *old(self), dt as int, direction as int, accel as int, decel as int,
            ),
    {
        if direction == 0 {
            return;
        }
        let ang: i64 = if direction < 0 {
            self.rot
        } else {
            wrap_angle(self.rot + PI_MRAD)
        };
        let rate: i64 = if direction < 0 {
            accel
        } else {
            decel
        };
        let dx: i64 = sin_milli(ang);
        let dy: i64 = cos_milli(ang);
        proof {
            assert(-1_000_000_000 <= dx as int * rate as int <= 1_000_000_000
                && -1_000_000_000 <= dy as int * rate as int <= 1_000_000_000)
                by (nonlinear_arith)
                requires
                    -1000 <= dx <= 1000,
                    -1000 <= dy <= 1000,
                    0 <= rate <= 1_000_000;
        }
        let px: i64 = dx * rate;
        let py: i64 = dy * rate;
        proof {
            lemma_mul_div_tz_le(px as int, dt as int, 1_000_000, 1_000_000_000, DT_LIMIT as int);
            lemma_mul_div_tz_le(py as int, dt as int, 1_000_000, 1_000_000_000, DT_LIMIT as int);
        }
        let ax: i64 = mul_div_tz(px, dt, 1_000_000);
        let ay: i64 = mul_div_tz(py, dt, 1_000_000);
        self.vel_x = clamp_i64(self.vel_x + ax, VEL_LIMIT);
        self.vel_y = clamp_i64(self.vel_y + ay, VEL_LIMIT);
    }

    /// Reflect the velocity at the world bounds `[-xb, xb] x [-yb, yb]` when
    /// the body has drifted past them and is still moving outward.
    pub fn wrap_position(&mut self, xb: i64, yb: i64)
        requires
            old(self).inv(),
            0 <= xb <= POS_LIMIT,
            0 <= yb <= POS_LIMIT,
        ensures
            final(self).inv(),
            *final(self) == spec_wrap_position(*old(self), xb as int, yb as int),
    {
        let half: i64 = self.size / 2;
        let cx: i64 = self.pos_x + (if self.pos_x >= 0 { half } else { -half });
        let cy: i64 = self.pos_y + (if self.pos_y >= 0 { half } else { -half });
        if cx > xb {
            if self.vel_x >= 0 {
                self.vel_x = -self.vel_x;
            }
        } else if cx < -xb {
            if self.vel_x <= 0 {
                self.vel_x = -self.vel_x;
            }
        } else if cy > yb {
            if self.vel_y >= 0 {
                self.vel_y = -self.vel_y;
            }
        } else if cy < -yb {
            if self.vel_y <= 0 {
                self.vel_y = -self.vel_y;
            }
        }
    }

    /// Move position and heading a fraction `num / den` of the way toward
    /// `other`.
    pub fn interpolate_to(&mut self, other: &Body, num: i64, den: i64)
        requires
            old(self).inv(),
            other.inv(),
            0 < den,
            0 <= num <= den,
        ensures
            final(self).inv(),
            *final(self) == spec_interpolate_to(*old(self), *other, num as int, den as int),
    {
        self.pos_x = lerp_i64(self.pos_x, other.pos_x, num, den);
        self.pos_y = lerp_i64(self.pos_y, other.pos_y, num, den);
        self.rot = lerp_i64(self.rot, other.rot, num, den);
    }
}

/// Rendered pose of the locally controlled entity: the previous tick's body
/// plus the blend of the last two simulated poses.  Decouples what is drawn
/// from what is simulated, hiding the reconciliation snap.
#[derive(Clone, Copy, Debug, PartialEq, Eq, Structural)]
pub struct BlenderBody {
    pub prev: Option<Body>,
    pub blended: Option<Body>,
}

/// The blended pose: position and heading a fraction `num / den` of the way
/// from the previous pose to the current one; everything else from the
/// current pose.
pub open spec fn spec_blend(prev: Body, cur: Body, num: int, den: int) -> Body {
    Body {
        pos_x: spec_lerp(prev.pos_x as int, cur.pos_x as int, num, den) as i64,
        pos_y: spec_lerp(prev.pos_y as int, cur.pos_y as int, num, den) as i64,
        rot: spec_lerp(prev.rot as int, cur.rot as int, num, den) as i64,
        ..cur
    }
}

impl BlenderBody {
    pub open spec fn inv(&self) -> bool {
        &&& (self.prev is Some ==> self.prev->Some_0.inv())
        &&& (self.blended is Some ==> self.blended->Some_0.inv())
    }

    pub fn new() -> (r: Self)
        ensures
            r.inv(),
            r.prev is None,
            r.blended is None,
    {
        Self { prev: None, blended: None }
    }

    /// Cache the pose computed on the previous tick, just before a new one
    /// replaces it.
    pub fn save(&mut self, body: Body)
        requires
            old(self).inv(),
            body.inv(),
        ensures
            final(self).inv(),
            final(self).prev == Some(body),
            final(self).blended == old(self).blended,
    {
        self.prev = Some(body);
    }

    /// Recompute the blended pose from the cached previous pose and the
    /// current one; with no cached pose the current one is used unchanged.
    pub fn blend(&mut self, cur: &Body, num: i64, den: i64)
        requires
            old(self).inv(),
            cur.inv(),
            0 < den,
            0 <= num <= den,
        ensures
            final(self).inv(),
            final(self).prev == old(self).prev,
            old(self).prev is Some ==> final(self).blended == Some(
                spec_blend(old(self).prev->Some_0, *cur, num as int, den as int),
            ),
            old(self).prev is None ==> final(self).blended == Some(*cur),
    {
        match &self.prev {
            Some(prev_body) => {
                let b = Body {
                    pos_x: lerp_i64(prev_body.pos_x, cur.pos_x, num, den),
                    pos_y: lerp_i64(prev_body.pos_y, cur.pos_y, num, den),
                    rot: lerp_i64(prev_body.rot, cur.rot, num, den),
                    vel_x: cur.vel_x,
                    vel_y: cur.vel_y,
                    rvel: cur.rvel,
                    size: cur.size,
                };
                self.blended = Some(b);
            }
            None => {
                self.blended = Some(*cur);
            }
        }
    }

    /// The most recently blended pose, if any.
    pub fn get_blended(&self) -> (r: Option<Body>)
        ensures
            r == self.blended,
    {
        self.blended
    }
}

} // verus!
