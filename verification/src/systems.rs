//! The simulation passes that run over the entity table each dispatch, gated
//! by an explicit run mode: kinematic prediction of the controllable entity,
//! render-time interpolation of remote entities, firing of speculative
//! projectiles, and cleanup of projectiles the server did not confirm.
//!
//! Each pass has a functional specification over `WorldView`, so that a
//! replayed dispatch provably reproduces the original one.

use vstd::prelude::*;
use crate::body::{
    spec_accelerate,
    spec_blend,
    spec_rotate,
    spec_update_position,
    spec_wrap_position,
    Accelerator,
    BlenderBody,
    Body,
};
use crate::cannon::Cannon;
use crate::clock::TIME_LIMIT_MS;
use crate::input::Input;
use crate::interp::{spec_sample, spec_trimmed};
use crate::life::TimeToLive;
use crate::num::{lemma_mul_div_tz_le, mul_div_tz, spec_mul_div_tz};
use crate::angle::{cos_milli, sin_milli, spec_cos_milli, spec_sin_milli};
use crate::world::{ShotNetworkId, World, WorldView};
use crate::TICK_MS;

verus! {

/// Half-extent of the world along the x axis, in milliunits.
pub const WORLD_BOUND_X: i64 = 400_000;

/// Half-extent of the world along the y axis, in milliunits.
pub const WORLD_BOUND_Y: i64 = 300_000;

/// Speed of a fired projectile, in milliunits per second.
pub const SHOT_SPEED: i64 = 250_000;

/// Collision size of a projectile, in milliunits.
pub const SHOT_SIZE: i64 = 2_000;

/// Lifetime of a projectile, in milliseconds.
pub const SHOT_TTL_MS: i64 = 2_000;

/// Cooldown of the player cannon, in milliseconds.
pub const FIRE_TIMEOUT_MS: i64 = 500;

/// Parameters of a render-time interpolation pass: the timestamp to sample
/// remote entities at, and the fraction of the current fixed tick already
/// elapsed, as `blend_num / blend_den`.
#[derive(Clone, Copy, Debug, PartialEq, Eq)]
pub struct InterpolationParams {
    pub render_timestamp: u64,
    pub blend_num: i64,
    pub blend_den: i64,
}

/// Which systems a dispatch pass runs: normal prediction, reconciliation
/// replay, or render-time interpolation.
#[derive(Clone, Copy, Debug, PartialEq, Eq)]
pub enum SystemRunMode {
    Prediction,
    Reconciliation,
    Interpolation(InterpolationParams),
}

impl SystemRunMode {
    pub open spec fn wf(self) -> bool {
        match self {
            SystemRunMode::Interpolation(p) => {
                &&& 0 < p.blend_den
                &&& 0 <= p.blend_num <= p.blend_den
                &&& p.render_timestamp <= TIME_LIMIT_MS
            },
            _ => true,
        }
    }
}

/// One fixed tick of the controllable entity: thrust, integrate, rotate,
/// reflect at the world bounds.
pub open spec fn spec_predict_body(b: Body, input: Input, acc: Accelerator) -> Body {
    spec_wrap_position(
        spec_rotate(
            spec_update_position(
                spec_accelerate(
                    b,
                    TICK_MS as int,
                    input.accel as int,
                    acc.accel as int,
                    acc.decel as int,
                ),
                TICK_MS as int,
            ),
            TICK_MS as int,
            input.turn as int,
        ),
        WORLD_BOUND_X as int,
        WORLD_BOUND_Y as int,
    )
}

/// The kinematics pass advances exactly the live, controllable entities that
/// have a body, a render blender and acceleration rates.
pub open spec fn spec_kin_active(w: WorldView, i: int) -> bool {
    &&& w.alive[i]
    &&& w.controllable[i]
    &&& w.bodies[i] is Some
    &&& w.blenders[i] is Some
    &&& w.accelerators[i] is Some
}

/// One kinematics pass over the whole world: each active entity first saves
/// its pose into the blender, then steps one fixed tick.
pub open spec fn spec_kin_world(w: WorldView, input: Input) -> WorldView {
    WorldView {
        bodies: Seq::new(
            w.bodies.len(),
            |i: int| if spec_kin_active(w, i) {
                Some(spec_predict_body(w.bodies[i]->Some_0, input, w.accelerators[i]->Some_0))
            } else {
                w.bodies[i]
            },
        ),
        blenders: Seq::new(
            w.blenders.len(),
            |i: int| if spec_kin_active(w, i) {
                Some(BlenderBody { prev: w.bodies[i], blended: w.blenders[i]->Some_0.blended })
            } else {
                w.blenders[i]
            },
        ),
        ..w
    }
}

/// Advances the locally controlled (and replayed) entities one fixed tick.
pub struct KinematicsPrediction;

impl KinematicsPrediction {
    /// Run one kinematics pass, unless this dispatch is an interpolation
    /// pass, which must not mutate simulated bodies.
    pub fn run(&self, world: &mut World, mode: SystemRunMode, input: &Input)
        requires
            old(world).inv(),
            input.inv(),
        ensures
            final(world).inv(),
            (mode matches SystemRunMode::Interpolation(_)) ==> final(world)@ == old(world)@,
            !(mode matches SystemRunMode::Interpolation(_)) ==> final(world)@ == spec_kin_world(
                old(world)@, *input,
            ),
    {
        if let SystemRunMode::Interpolation(_) = mode {
            return;
        }
        let ghost w0: WorldView = world@;
        let n: usize = world.num_entities();
        let mut e: usize = 0;
        while e < n
            invariant
                world.inv(),
                input.inv(),
                w0.wf(),
                n == world@.len(),
                n == w0.len(),
                e <= n,
                world@.alive == w0.alive,
                world@.cannons == w0.cannons,
                world@.interp == w0.interp,
                world@.network_ids == w0.network_ids,
                world@.controllable == w0.controllable,
                world@.accelerators == w0.accelerators,
                world@.ttls == w0.ttls,
                world@.lives == w0.lives,
                world@.shot_ids == w0.shot_ids,
                forall|i: int| e <= i < n ==> #[trigger] world@.bodies[i] == w0.bodies[i],
                forall|i: int| e <= i < n ==> #[trigger] world@.blenders[i] == w0.blenders[i],
                forall|i: int|
                    0 <= i < e ==> #[trigger] world@.bodies[i]
                        == spec_kin_world(w0, *input).bodies[i],
                forall|i: int|
                    0 <= i < e ==> #[trigger] world@.blenders[i]
                        == spec_kin_world(w0, *input).blenders[i],
            decreases n - e,
        {
            if world.is_alive(e) && world.is_controllable(e) {
                let b: Option<Body> = world.body(e);
                let bl: Option<BlenderBody> = world.blender(e);
                let ac: Option<Accelerator> = world.accelerator(e);
                match (b, bl, ac) {
                    (Some(body0), Some(blender0), Some(acc)) => {
                        let mut blender: BlenderBody = blender0;
                        blender.save(body0);
                        world.set_blender(e, blender);
                        let mut body: Body = body0;
                        body.accelerate(TICK_MS, input.accel, acc.accel, acc.decel);
                        body.update_position(TICK_MS);
                        body.rotate(TICK_MS, input.turn);
                        body.wrap_position(WORLD_BOUND_X, WORLD_BOUND_Y);
                        world.set_body(e, body);
                    }
                    _ => {}
                }
            }
            e = e + 1;
        }
        proof {
            assert(world@ =~~= spec_kin_world(w0, *input));
        }
    }
}

/// The cooled-down cannon after one fixed tick.
pub open spec fn spec_cannon_tick(c: Cannon, dt: int) -> Cannon {
    Cannon {
        cur_timeout: if c.cur_timeout > dt {
            (c.cur_timeout - dt) as i64
        } else {
            0i64
        },
        ..c
    }
}

/// The body of a projectile fired by `from`: same pose, projectile size, and
/// full projectile speed along the firing entity's heading.
pub open spec fn spec_shot_body(from: Body) -> Body {
    Body {
        vel_x: spec_mul_div_tz(spec_sin_milli(from.rot as int), SHOT_SPEED as int, 1000) as i64,
        vel_y: spec_mul_div_tz(spec_cos_milli(from.rot as int), SHOT_SPEED as int, 1000) as i64,
        size: SHOT_SIZE,
        ..from
    }
}

/// The projectile tag carried by a freshly fired shot, if an input sequence
/// number is pending confirmation.
pub open spec fn spec_shot_tag(id: Option<u32>) -> Option<ShotNetworkId> {
    match id {
        Some(i) => Some(ShotNetworkId { sequence: i, confirmed: true }),
        None => None,
    }
}

/// Whether the shooting pass fires this tick: the cannon entity's cooldown
/// reaches zero and fire input is held.
pub open spec fn spec_shot_fired(w: WorldView, input: Input) -> bool {
    match w.find_cannon() {
        None => false,
        Some(c) => spec_cannon_tick(w.cannons[c]->Some_0, TICK_MS as int).cur_timeout == 0
            && input.fire,
    }
}

/// One shooting pass: the cannon cools down one tick; when it is ready and
/// fire is held, a speculative projectile entity is appended, tagged with
/// the pending sequence number, and the cannon reloads.
pub open spec fn spec_shoot_world(w: WorldView, input: Input, shot_id: Option<u32>) -> WorldView {
    match w.find_cannon() {
        None => w,
        Some(c) => {
            let cannon: Cannon = w.cannons[c]->Some_0;
            let ticked: Cannon = spec_cannon_tick(cannon, TICK_MS as int);
            if !(ticked.cur_timeout == 0 && input.fire) {
                WorldView { cannons: w.cannons.update(c, Some(ticked)), ..w }
            } else {
                WorldView {
                    alive: w.alive.push(true),
                    bodies: w.bodies.push(Some(spec_shot_body(w.bodies[c]->Some_0))),
                    blenders: w.blenders.push(None),
                    cannons: w.cannons.update(
                        c,
                        Some(Cannon { cur_timeout: cannon.max_timeout, max_timeout: cannon.max_timeout }),
                    ).push(None),
                    interp: w.interp.push(None),
                    network_ids: w.network_ids.push(None),
                    controllable: w.controllable.push(false),
                    accelerators: w.accelerators.push(None),
                    ttls: w.ttls.push(Some(TimeToLive { ttl: SHOT_TTL_MS })),
                    lives: w.lives.push(None),
                    shot_ids: w.shot_ids.push(spec_shot_tag(shot_id)),
                }
            }
        },
    }
}

/// Fires speculative projectiles from the cannon entity during prediction.
pub struct Shooting;

impl Shooting {
    /// The body of a projectile fired by an entity with body `from`.
    pub fn create_shot_body(&self, from: Body) -> (r: Body)
        requires
            from.inv(),
        ensures
            r == spec_shot_body(from),
            r.inv(),
    {
        let dx: i64 = sin_milli(from.rot);
        let dy: i64 = cos_milli(from.rot);
        proof {
            lemma_mul_div_tz_le(dx as int, SHOT_SPEED as int, 1000, 1000, SHOT_SPEED as int);
            lemma_mul_div_tz_le(dy as int, SHOT_SPEED as int, 1000, 1000, SHOT_SPEED as int);
        }
        Body {
            vel_x: mul_div_tz(dx, SHOT_SPEED, 1000),
            vel_y: mul_div_tz(dy, SHOT_SPEED, 1000),
            size: SHOT_SIZE,
            ..from
        }
    }

    /// Run one shooting pass; during prediction only.  Returns the slot of
    /// the projectile entity fired this tick, if any.
    pub fn run(
        &self,
        world: &mut World,
        mode: SystemRunMode,
        input: &Input,
        unconfirmed_shot_id: Option<u32>,
    ) -> (shot: Option<usize>)
        requires
            old(world).inv(),
            input.inv(),
            old(world)@.len() < usize::MAX,
        ensures
            final(world).inv(),
            !(mode is Prediction) ==> {
                &&& final(world)@ == old(world)@
                &&& shot is None
            },
            mode is Prediction ==> {
                &&& final(world)@ == spec_shoot_world(old(world)@, *input, unconfirmed_shot_id)
                &&& shot == (if spec_shot_fired(old(world)@, *input) {
                    Some(old(world)@.len() as usize)
                } else {
                    Option::<usize>::None
                })
            },
    {
        match mode {
            SystemRunMode::Prediction => {}
            _ => {
                return None;
            }
        }
        let found: Option<usize> = world.find_cannon_entity();
        match found {
            None => None,
            Some(c) => {
                proof {
                    lemma_find_cannon_in_range(world@, c as int);
                }
                let mut cannon: Cannon = match world.cannon(c) {
                    Some(cn) => cn,
                    None => {
                        proof {
                            assert(false);
                        }
                        Cannon::new(0)
                    }
                };
                cannon.update(TICK_MS);
                if cannon.ready_to_fire() && input.fire {
                    let from: Body = match world.body(c) {
                        Some(b) => b,
                        None => {
                            proof {
                                assert(false);
                            }
                            Body::new(0, 0, 0, 0, 0, 0, 0)
                        }
                    };
                    let shot_body: Body = self.create_shot_body(from);
                    let s: usize = world.create_entity();
                    world.set_body(s, shot_body);
                    world.set_ttl(s, TimeToLive::new(SHOT_TTL_MS));
                    match unconfirmed_shot_id {
                        Some(id) => {
                            world.set_shot_id(s, ShotNetworkId { sequence: id, confirmed: true });
                        }
                        None => {}
                    }
                    cannon.reload();
                    world.set_cannon(c, cannon);
                    proof {
                        assert(world@ =~~= spec_shoot_world(
                            old(world)@, *input, unconfirmed_shot_id,
                        ));
                    }
                    Some(s)
                } else {
                    world.set_cannon(c, cannon);
                    proof {
                        assert(world@ =~~= spec_shoot_world(
                            old(world)@, *input, unconfirmed_shot_id,
                        ));
                    }
                    None
                }
            }
        }
    }
}

/// A found cannon slot is in range and holds a cannon.
proof fn lemma_find_cannon_in_range(w: WorldView, c: int)
    requires
        w.find_cannon() == Some(c),
    ensures
        0 <= c < w.len(),
        w.alive[c],
        w.cannons[c] is Some,
{
    lemma_find_cannon_from_in_range(w, 0, c);
}

proof fn lemma_find_cannon_from_in_range(w: WorldView, i: int, c: int)
    requires
        w.find_cannon_from(i) == Some(c),
        0 <= i,
    ensures
        i <= c < w.len(),
        w.alive[c],
        w.cannons[c] is Some,
    decreases w.len() - i,
{
    if i < w.len() && !(w.alive[i] && w.cannons[i] is Some) {
        lemma_find_cannon_from_in_range(w, i + 1, c);
    }
}

/// The interpolation pass touches exactly the live entities with a body and
/// a snapshot buffer.
pub open spec fn spec_interp_active(w: WorldView, i: int) -> bool {
    &&& w.alive[i]
    &&& w.interp[i] is Some
    &&& w.bodies[i] is Some
}

/// First half of an interpolation pass: each remote entity's body becomes
/// the pose sampled from its snapshot buffer, and the buffer drops evicted
/// snapshots.
pub open spec fn spec_sample_pass(w: WorldView, t: u64) -> WorldView {
    WorldView {
        bodies: Seq::new(
            w.bodies.len(),
            |i: int| if spec_interp_active(w, i) {
                match spec_sample(w.interp[i]->Some_0, t) {
                    Some(b) => Some(b),
                    None => w.bodies[i],
                }
            } else {
                w.bodies[i]
            },
        ),
        interp: Seq::new(
            w.interp.len(),
            |i: int| if spec_interp_active(w, i) {
                Some(spec_trimmed(w.interp[i]->Some_0, t))
            } else {
                w.interp[i]
            },
        ),
        ..w
    }
}

/// The blend pass touches exactly the live entities with a body and a
/// blender.
pub open spec fn spec_blend_active(w: WorldView, i: int) -> bool {
    &&& w.alive[i]
    &&& w.bodies[i] is Some
    &&& w.blenders[i] is Some
}

/// Second half of an interpolation pass: each blended entity's render pose
/// is recomputed from the cached previous pose and the current body.
pub open spec fn spec_blend_pass(w: WorldView, num: int, den: int) -> WorldView {
    WorldView {
        blenders: Seq::new(
            w.blenders.len(),
            |i: int| if spec_blend_active(w, i) {
                let bl: BlenderBody = w.blenders[i]->Some_0;
                let cur: Body = w.bodies[i]->Some_0;
                Some(BlenderBody {
                    prev: bl.prev,
                    blended: Some(match bl.prev {
                        Some(p) => spec_blend(p, cur, num, den),
                        None => cur,
                    }),
                })
            } else {
                w.blenders[i]
            },
        ),
        ..w
    }
}

/// A full interpolation pass: sample remote poses, then blend render poses.
pub open spec fn spec_interp_world(w: WorldView, p: InterpolationParams) -> WorldView {
    spec_blend_pass(
        spec_sample_pass(w, p.render_timestamp),
        p.blend_num as int,
        p.blend_den as int,
    )
}

/// Replaces remote entities' bodies by poses interpolated between buffered
/// snapshots, then recomputes blended render poses.
pub struct Interpolation;

impl Interpolation {
    /// Run one interpolation pass; in any other mode the world is untouched.
    pub fn run(&self, world: &mut World, mode: SystemRunMode)
        requires
            old(world).inv(),
            mode.wf(),
        ensures
            final(world).inv(),
            !(mode matches SystemRunMode::Interpolation(_)) ==> final(world)@ == old(world)@,
            mode matches SystemRunMode::Interpolation(p) ==> final(world)@ == spec_interp_world(
                old(world)@, p,
            ),
    {
        let p: InterpolationParams = match mode {
            SystemRunMode::Interpolation(p) => p,
            _ => {
                return;
            }
        };
        let ghost w0: WorldView = world@;
        let n: usize = world.num_entities();
        let mut e: usize = 0;
        while e < n
            invariant
                world.inv(),
                w0.wf(),
                n == world@.len(),
                n == w0.len(),
                e <= n,
                world@.alive == w0.alive,
                world@.blenders == w0.blenders,
                world@.cannons == w0.cannons,
                world@.network_ids == w0.network_ids,
                world@.controllable == w0.controllable,
                world@.accelerators == w0.accelerators,
                world@.ttls == w0.ttls,
                world@.lives == w0.lives,
                world@.shot_ids == w0.shot_ids,
                forall|i: int| e <= i < n ==> #[trigger] world@.bodies[i] == w0.bodies[i],
                forall|i: int| e <= i < n ==> #[trigger] world@.interp[i] == w0.interp[i],
                forall|i: int|
                    0 <= i < e ==> #[trigger] world@.bodies[i]
                        == spec_sample_pass(w0, p.render_timestamp).bodies[i],
                forall|i: int|
                    0 <= i < e ==> #[trigger] world@.interp[i]
                        == spec_sample_pass(w0, p.render_timestamp).interp[i],
            decreases n - e,
        {
            let has_body: bool = match world.body(e) {
                Some(_) => true,
                None => false,
            };
            if world.is_alive(e) && has_body {
                let sampled: Option<Body> = world.interp_sample(e, p.render_timestamp);
                match sampled {
                    Some(b) => {
                        world.set_body(e, b);
                    }
                    None => {}
                }
            }
            e = e + 1;
        }
        let ghost w1: WorldView = spec_sample_pass(w0, p.render_timestamp);
        proof {
            assert(world@ =~~= w1);
        }
        let mut e2: usize = 0;
        while e2 < n
            invariant
                world.inv(),
                w1.wf(),
                0 < p.blend_den,
                0 <= p.blend_num <= p.blend_den,
                n == world@.len(),
                n == w1.len(),
                e2 <= n,
                world@.alive == w1.alive,
                world@.bodies == w1.bodies,
                world@.cannons == w1.cannons,
                world@.interp == w1.interp,
                world@.network_ids == w1.network_ids,
                world@.controllable == w1.controllable,
                world@.accelerators == w1.accelerators,
                world@.ttls == w1.ttls,
                world@.lives == w1.lives,
                world@.shot_ids == w1.shot_ids,
                forall|i: int| e2 <= i < n ==> #[trigger] world@.blenders[i] == w1.blenders[i],
                forall|i: int|
                    0 <= i < e2 ==> #[trigger] world@.blenders[i]
                        == spec_blend_pass(w1, p.blend_num as int, p.blend_den as int).blenders[i],
            decreases n - e2,
        {
            if world.is_alive(e2) {
                let b: Option<Body> = world.body(e2);
                let bl: Option<BlenderBody> = world.blender(e2);
                match (b, bl) {
                    (Some(cur), Some(blender0)) => {
                        let mut blender: BlenderBody = blender0;
                        blender.blend(&cur, p.blend_num, p.blend_den);
                        world.set_blender(e2, blender);
                    }
                    _ => {}
                }
            }
            e2 = e2 + 1;
        }
        proof {
            assert(world@ =~~= spec_interp_world(w0, p));
        }
    }
}

/// Whether the cleanup pass deletes entity `i`: a live speculative
/// projectile whose confirmation the server has withdrawn.
pub open spec fn spec_cleanup_target(w: WorldView, i: int) -> bool {
    &&& w.alive[i]
    &&& w.shot_ids[i] is Some
    &&& !w.shot_ids[i]->Some_0.confirmed
}

/// One cleanup pass: every unconfirmed projectile entity is deleted.
pub open spec fn spec_cleanup_world(w: WorldView) -> WorldView {
    WorldView {
        alive: Seq::new(w.alive.len(), |i: int| !spec_cleanup_target(w, i) && w.alive[i]),
        bodies: Seq::new(
            w.bodies.len(),
            |i: int| if spec_cleanup_target(w, i) { None } else { w.bodies[i] },
        ),
        blenders: Seq::new(
            w.blenders.len(),
            |i: int| if spec_cleanup_target(w, i) { None } else { w.blenders[i] },
        ),
        cannons: Seq::new(
            w.cannons.len(),
            |i: int| if spec_cleanup_target(w, i) { None } else { w.cannons[i] },
        ),
        interp: Seq::new(
            w.interp.len(),
            |i: int| if spec_cleanup_target(w, i) { None } else { w.interp[i] },
        ),
        network_ids: Seq::new(
            w.network_ids.len(),
            |i: int| if spec_cleanup_target(w, i) { None } else { w.network_ids[i] },
        ),
        controllable: Seq::new(
            w.controllable.len(),
            |i: int| !spec_cleanup_target(w, i) && w.controllable[i],
        ),
        accelerators: Seq::new(
            w.accelerators.len(),
            |i: int| if spec_cleanup_target(w, i) { None } else { w.accelerators[i] },
        ),
        ttls: Seq::new(
            w.ttls.len(),
            |i: int| if spec_cleanup_target(w, i) { None } else { w.ttls[i] },
        ),
        lives: Seq::new(
            w.lives.len(),
            |i: int| if spec_cleanup_target(w, i) { None } else { w.lives[i] },
        ),
        shot_ids: Seq::new(
            w.shot_ids.len(),
            |i: int| if spec_cleanup_target(w, i) { None } else { w.shot_ids[i] },
        ),
    }
}

/// Deletes projectiles the server declined to confirm, during
/// reconciliation.
pub struct UnconfirmedShotCleanup;

impl UnconfirmedShotCleanup {
    /// Run one cleanup pass; in any other mode the world is untouched.
    pub fn run(&self, world: &mut World, mode: SystemRunMode)
        requires
            old(world).inv(),
        ensures
            final(world).inv(),
            !(mode is Reconciliation) ==> final(world)@ == old(world)@,
            mode is Reconciliation ==> final(world)@ == spec_cleanup_world(old(world)@),
    {
        match mode {
            SystemRunMode::Reconciliation => {}
            _ => {
                return;
            }
        }
        let ghost w0: WorldView = world@;
        let n: usize = world.num_entities();
        let mut e: usize = 0;
        while e < n
            invariant
                world.inv(),
                w0.wf(),
                n == world@.len(),
                n == w0.len(),
                e <= n,
                forall|i: int| e <= i < n ==> #[trigger] world@.alive[i] == w0.alive[i],
                forall|i: int| e <= i < n ==> #[trigger] world@.bodies[i] == w0.bodies[i],
                forall|i: int| e <= i < n ==> #[trigger] world@.blenders[i] == w0.blenders[i],
                forall|i: int| e <= i < n ==> #[trigger] world@.cannons[i] == w0.cannons[i],
                forall|i: int| e <= i < n ==> #[trigger] world@.interp[i] == w0.interp[i],
                forall|i: int| e <= i < n ==> #[trigger] world@.network_ids[i] == w0.network_ids[i],
                forall|i: int| e <= i < n ==> #[trigger] world@.controllable[i] == w0.controllable[i],
                forall|i: int| e <= i < n ==> #[trigger] world@.accelerators[i] == w0.accelerators[i],
                forall|i: int| e <= i < n ==> #[trigger] world@.ttls[i] == w0.ttls[i],
                forall|i: int| e <= i < n ==> #[trigger] world@.lives[i] == w0.lives[i],
                forall|i: int| e <= i < n ==> #[trigger] world@.shot_ids[i] == w0.shot_ids[i],
                forall|i: int| 0 <= i < e ==> #[trigger] world@.alive[i] == spec_cleanup_world(w0).alive[i],
                forall|i: int| 0 <= i < e ==> #[trigger] world@.bodies[i] == spec_cleanup_world(w0).bodies[i],
                forall|i: int| 0 <= i < e ==> #[trigger] world@.blenders[i] == spec_cleanup_world(w0).blenders[i],
                forall|i: int| 0 <= i < e ==> #[trigger] world@.cannons[i] == spec_cleanup_world(w0).cannons[i],
                forall|i: int| 0 <= i < e ==> #[trigger] world@.interp[i] == spec_cleanup_world(w0).interp[i],
                forall|i: int| 0 <= i < e ==> #[trigger] world@.network_ids[i] == spec_cleanup_world(w0).network_ids[i],
                forall|i: int| 0 <= i < e ==> #[trigger] world@.controllable[i] == spec_cleanup_world(w0).controllable[i],
                forall|i: int| 0 <= i < e ==> #[trigger] world@.accelerators[i] == spec_cleanup_world(w0).accelerators[i],
                forall|i: int| 0 <= i < e ==> #[trigger] world@.ttls[i] == spec_cleanup_world(w0).ttls[i],
                forall|i: int| 0 <= i < e ==> #[trigger] world@.lives[i] == spec_cleanup_world(w0).lives[i],
                forall|i: int| 0 <= i < e ==> #[trigger] world@.shot_ids[i] == spec_cleanup_world(w0).shot_ids[i],
            decreases n - e,
        {
            let target: bool = world.is_alive(e) && match world.shot_id(e) {
                Some(s) => !s.confirmed,
                None => false,
            };
            if target {
                world.delete_entity(e);
            }
            e = e + 1;
        }
        proof {
            assert(world@ =~~= spec_cleanup_world(w0));
        }
    }
}

} // verus!
