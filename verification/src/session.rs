//! The session: the state-synchronization core seen by the game loop.  It
//! drains decoded server messages into handlers, advances the fixed-tick
//! simulation, reconciles the locally controlled entity against
//! authoritative updates by deterministic replay of unacknowledged inputs,
//! and prepares interpolated render poses.

use vstd::prelude::*;
use crate::body::{Accelerator, BlenderBody, Body, PLAYER_ACCELERATION, PLAYER_DECELERATION};
use crate::cannon::{spec_timeout_clip, Cannon, TIMEOUT_LIMIT_MS};
use crate::clock::{ServerClock, TIME_LIMIT_MS};
use crate::input::{
    spec_drain,
    Input,
    InputBuffer,
    InputDelta,
    Key,
    PendingInput,
};
use crate::interp::InterpolationPosition;
use crate::life::{Life, TimeToLive, LIFE_LIMIT};
use crate::systems::{
    spec_cleanup_world,
    spec_interp_world,
    spec_kin_world,
    spec_shoot_world,
    InterpolationParams,
    Interpolation,
    KinematicsPrediction,
    Shooting,
    SystemRunMode,
    UnconfirmedShotCleanup,
    FIRE_TIMEOUT_MS,
};
use crate::world::{lemma_find_cannon_props, lemma_find_id_props, ShotNetworkId, World, WorldView};
use crate::TICK_MS;

verus! {

/// Offset subtracted from the render clock when sampling remote entities, in
/// milliseconds, so that two bracketing snapshots normally already exist.
pub const RENDER_DELAY_MS: u64 = 33;

/// One entity's slice of an authoritative batch update.
#[derive(Clone, Copy, Debug, PartialEq, Eq)]
pub struct EntityUpdate {
    pub id: u32,
    pub body: Body,
    /// Remaining cooldown of the player cannon, server-relative, in
    /// milliseconds.
    pub current_fire_timeout: Option<i64>,
    /// Highest input sequence number the server has applied.
    pub last_handled_input: Option<u32>,
    /// Whether the speculative projectile spawned under that input was
    /// accepted.
    pub shot_confirmed: Option<bool>,
}

impl EntityUpdate {
    pub open spec fn wf(self) -> bool {
        &&& self.body.inv()
        &&& match self.current_fire_timeout {
            Some(cd) => 0 <= cd <= TIMEOUT_LIMIT_MS,
            None => true,
        }
    }
}

/// A semantic message from (or about) the server, already decoded from the
/// wire by the transport layer.
#[derive(Clone, Debug, PartialEq, Eq)]
pub enum Msg {
    /// Undecodable or irrelevant traffic.
    Unknown,
    /// The transport saw no server traffic for too long.
    ServerNotResponding,
    /// A keep-alive that the client must echo.
    Heartbeat,
    /// The server accepted the join request.
    JoinAck { id: u32, body: Body, life: i64 },
    /// Another player appeared.
    CreatePlayer { id: u32, body: Body, life: i64 },
    /// A hazard appeared.
    CreateAsteroid { id: u32, body: Body, life: i64 },
    /// A server-owned projectile appeared.
    CreateShot { body: Body, ttl: i64 },
    /// The entity with this id left the simulation.
    Destroy { id: u32 },
    /// One atomic batch of authoritative entity states.
    SimUpdates { timestamp: u64, updates: Vec<EntityUpdate> },
    /// A latency probe came back: when it left, and the server clock when
    /// the server handled it.
    Latency { timestamp: u64, server_timestamp: u64 },
    /// The connection is gone for good.
    ConnectionLost,
}

impl Msg {
    pub open spec fn wf(self) -> bool {
        match self {
            Msg::JoinAck { id, body, life } => body.inv() && 0 < life <= LIFE_LIMIT,
            Msg::CreatePlayer { id, body, life } => body.inv() && 0 < life <= LIFE_LIMIT,
            Msg::CreateAsteroid { id, body, life } => body.inv() && 0 < life <= LIFE_LIMIT,
            Msg::CreateShot { body, ttl } => body.inv() && 0 <= ttl <= LIFE_LIMIT,
            Msg::SimUpdates { timestamp, updates } => {
                &&& timestamp <= TIME_LIMIT_MS
                &&& forall|i: int| 0 <= i < updates@.len() ==> (#[trigger] updates@[i]).wf()
            },
            _ => true,
        }
    }
}

/// What the transport drain loop should do with one received message.
#[derive(Clone, Copy, Debug, PartialEq, Eq, Structural)]
pub enum RecvAction {
    /// Drop the message and keep draining.
    Skip,
    /// Echo a heartbeat, then keep draining.
    ReplyHeartbeat,
    /// Hand the message to the session.
    Deliver,
    /// Too many silent periods in a row: treat the server as gone.
    GiveUp,
}

/// The transport drain decision for one received message, given how many
/// silent periods have been seen in a row: undecodable traffic is skipped,
/// the third consecutive silence gives up, heartbeats are echoed, and any
/// real message resets the silence count and is delivered.
pub fn recv_step(timeouts: u32, msg: &Msg) -> (r: (RecvAction, u32))
    ensures
        r == (match msg {
            Msg::Unknown => (RecvAction::Skip, timeouts),
            Msg::ServerNotResponding => {
                if timeouts >= 2 {
                    (RecvAction::GiveUp, 3u32)
                } else {
                    (RecvAction::Skip, (timeouts + 1) as u32)
                }
            },
            Msg::Heartbeat => (RecvAction::ReplyHeartbeat, 0u32),
            _ => (RecvAction::Deliver, 0u32),
        }),
{
    match msg {
        Msg::Unknown => (RecvAction::Skip, timeouts),
        Msg::ServerNotResponding => {
            if timeouts >= 2 {
                (RecvAction::GiveUp, 3)
            } else {
                (RecvAction::Skip, timeouts + 1)
            }
        }
        Msg::Heartbeat => (RecvAction::ReplyHeartbeat, 0),
        _ => (RecvAction::Deliver, 0),
    }
}

/// The whole session as plain mathematical values.
#[verifier::ext_equal]
pub ghost struct SessionView {
    pub world: WorldView,
    pub pending: Seq<PendingInput>,
    pub pending_counter: u32,
    pub latency: int,
    pub delta_time: int,
    pub input: Input,
    pub time_acc: int,
    pub last_update_timestamp: Option<u64>,
    pub player_id: Option<u32>,
    pub unconfirmed_shot_id: Option<u32>,
}

/// The client-side synchronization core: entity table, input history, clock
/// estimate, current input state, and the fixed-tick accumulator.
pub struct Session {
    pub world: World,
    pub pending_inputs: InputBuffer,
    pub server_clock: ServerClock,
    pub input: Input,
    pub time_acc: i64,
    pub last_update_timestamp: Option<u64>,
    pub player_id: Option<u32>,
    pub unconfirmed_shot_id: Option<u32>,
}

impl View for Session {
    type V = SessionView;

    open spec fn view(&self) -> SessionView {
        SessionView {
            world: self.world@,
            pending: self.pending_inputs.buf@,
            pending_counter: self.pending_inputs.sequence_number,
            latency: self.server_clock.latency as int,
            delta_time: self.server_clock.delta_time as int,
            input: self.input,
            time_acc: self.time_acc as int,
            last_update_timestamp: self.last_update_timestamp,
            player_id: self.player_id,
            unconfirmed_shot_id: self.unconfirmed_shot_id,
        }
    }
}

impl Session {
    pub open spec fn inv(&self) -> bool {
        &&& self.world.inv()
        &&& self.pending_inputs.inv()
        &&& self.server_clock.wf()
        &&& self.input.inv()
        &&& 0 <= self.time_acc <= TICK_MS
        &&& (self.player_id is None ==> forall|i: int|
            0 <= i < self.world@.len() ==> #[trigger] self.world@.cannons[i] is None)
    }

    /// A fresh session: empty world, empty input history, neutral input, no
    /// clock estimate, nothing acknowledged yet.
    pub fn new() -> (r: Self)
        ensures
            r.inv(),
            r@.world.len() == 0,
            r@.pending.len() == 0,
            r@.pending_counter == 0,
            r@.latency == 0,
            r@.delta_time == 0,
            r@.input == (Input { turn: 0, accel: 0, fire: false }),
            r@.time_acc == 0,
            r@.last_update_timestamp is None,
            r@.player_id is None,
            r@.unconfirmed_shot_id is None,
    {
        Session {
            world: World::new(),
            pending_inputs: InputBuffer::new(),
            server_clock: ServerClock::new(),
            input: Input::new(),
            time_acc: 0,
            last_update_timestamp: None,
            player_id: None,
            unconfirmed_shot_id: None,
        }
    }
}

/// `n` fixed kinematics ticks under one input, as replay runs them.
pub open spec fn spec_kin_ticks(w: WorldView, input: Input, n: nat) -> WorldView
    decreases n,
{
    if n == 0 {
        w
    } else {
        spec_kin_world(spec_kin_ticks(w, input, (n - 1) as nat), input)
    }
}

/// Deterministic replay of a pending-input history: each entry's input is
/// made active and exactly the ticks recorded for it are re-run.
pub open spec fn spec_replay(w: WorldView, ps: Seq<PendingInput>) -> WorldView
    decreases ps.len(),
{
    if ps.len() == 0 {
        w
    } else {
        spec_replay(
            spec_kin_ticks(w, ps[0].input, ps[0].full_update_steps as nat),
            ps.subrange(1, ps.len() as int),
        )
    }
}

/// The input state left active after a replay.
pub open spec fn spec_replay_input(input: Input, ps: Seq<PendingInput>) -> Input {
    if ps.len() == 0 {
        input
    } else {
        ps.last().input
    }
}

/// Replaying one more recorded input continues from the replayed state.
pub proof fn lemma_replay_push(w: WorldView, ps: Seq<PendingInput>, p: PendingInput)
    ensures
        spec_replay(w, ps.push(p)) == spec_kin_ticks(
            spec_replay(w, ps), p.input, p.full_update_steps as nat,
        ),
    decreases ps.len(),
{
    reveal_with_fuel(spec_replay, 3);
    if ps.len() == 0 {
        assert(ps.push(p)[0] == p);
        assert(ps.push(p).subrange(1, 1) =~= Seq::<PendingInput>::empty());
    } else {
        assert(ps.push(p)[0] == ps[0]);
        assert(ps.push(p).subrange(1, ps.len() + 1 as int) =~= ps.subrange(
            1, ps.len() as int,
        ).push(p));
        lemma_replay_push(
            spec_kin_ticks(w, ps[0].input, ps[0].full_update_steps as nat),
            ps.subrange(1, ps.len() as int),
            p,
        );
    }
}

/// Replay composes: running a history in two pieces is running it at once.
pub proof fn lemma_replay_append(w: WorldView, a: Seq<PendingInput>, b: Seq<PendingInput>)
    ensures
        spec_replay(w, a + b) == spec_replay(spec_replay(w, a), b),
    decreases a.len(),
{
    reveal_with_fuel(spec_replay, 3);
    if a.len() == 0 {
        assert(a + b =~= b);
    } else {
        assert((a + b)[0] == a[0]);
        assert((a + b).subrange(1, (a + b).len() as int) =~= a.subrange(1, a.len() as int) + b);
        lemma_replay_append(
            spec_kin_ticks(w, a[0].input, a[0].full_update_steps as nat),
            a.subrange(1, a.len() as int),
            b,
        );
    }
}

/// Replay is deterministic: from equal starting worlds, equal input
/// histories (element for element) replay to equal worlds.  Together with
/// the exact contracts of the tick functions this makes two runs of the
/// stepper over the same buffered inputs bit-identical.
pub proof fn lemma_replay_deterministic(
    w1: WorldView,
    w2: WorldView,
    p1: Seq<PendingInput>,
    p2: Seq<PendingInput>,
)
    requires
        w1 =~~= w2,
        p1 =~= p2,
    ensures
        spec_replay(w1, p1) == spec_replay(w2, p2),
{
    assert(w1 == w2);
    assert(p1 == p2);
}

/// Reconciliation converges: if the authoritative body state equals what the
/// reference simulation produces up to the acknowledged inputs, then
/// replaying the remaining buffered inputs on top of it reproduces exactly
/// the state the client would have predicted with no server round trip.
pub proof fn lemma_reconciliation_convergence(
    w0: WorldView,
    acked: Seq<PendingInput>,
    remaining: Seq<PendingInput>,
    server: WorldView,
)
    requires
        server == spec_replay(w0, acked),
    ensures
        spec_replay(server, remaining) == spec_replay(w0, acked + remaining),
{
    lemma_replay_append(w0, acked, remaining);
}


/// The cannon column after a server-corrected cooldown overwrite.
pub open spec fn spec_set_cannon_timeouts(w: WorldView, t: int) -> WorldView {
    WorldView {
        cannons: Seq::new(
            w.cannons.len(),
            |i: int| match w.cannons[i] {
                Some(c) => Some(Cannon {
                    cur_timeout: spec_timeout_clip(t) as i64,
                    max_timeout: c.max_timeout,
                }),
                None => None,
            },
        ),
        ..w
    }
}

/// The projectile tags after the server withdrew the confirmation of the
/// shot spawned under `sequence`.
pub open spec fn spec_mark_unconfirmed(w: WorldView, sequence: u32) -> WorldView {
    WorldView {
        shot_ids: Seq::new(
            w.shot_ids.len(),
            |i: int| match w.shot_ids[i] {
                Some(t) => Some(ShotNetworkId {
                    sequence: t.sequence,
                    confirmed: t.confirmed && t.sequence != sequence,
                }),
                None => None,
            },
        ),
        ..w
    }
}

/// A remote entity's snapshot buffer after an authoritative update received
/// at `now`: appended when the buffer exists and stays time-ordered.
pub open spec fn spec_remote_append(w: WorldView, e: int, body: Body, now: u64) -> WorldView {
    if w.interp[e] is Some {
        let s: Seq<InterpolationPosition> = w.interp[e]->Some_0;
        if s.len() == 0 || s.last().timestamp < now {
            WorldView {
                interp: w.interp.update(
                    e,
                    Some(s.push(InterpolationPosition { timestamp: now, body })),
                ),
                ..w
            }
        } else {
            w
        }
    } else {
        w
    }
}

/// The session after one entity's slice of a batch update.  For an unknown
/// id nothing changes.  For a remote entity the body is buffered for
/// interpolation.  For the local player the body is replaced wholesale, a
/// server-reported cooldown is shifted into local time, a withdrawn shot
/// confirmation marks the projectile and a cleanup pass deletes it, and the
/// inputs past the acknowledged sequence number are replayed
/// deterministically.
pub open spec fn spec_apply_update(s: SessionView, u: EntityUpdate, now: u64) -> SessionView {
    match s.world.find_id(u.id) {
        None => s,
        Some(e) => {
            if s.player_id == Some(u.id) {
                if s.world.bodies[e] is Some {
                    let w1: WorldView = WorldView {
                        bodies: s.world.bodies.update(e, Some(u.body)),
                        ..s.world
                    };
                    let w2: WorldView = match u.current_fire_timeout {
                        Some(cd) => spec_set_cannon_timeouts(w1, cd - (s.latency + s.delta_time)),
                        None => w1,
                    };
                    match u.last_handled_input {
                        None => SessionView { world: w2, ..s },
                        Some(lhi) => {
                            let w3: WorldView = if u.shot_confirmed == Some(false) {
                                spec_mark_unconfirmed(w2, lhi)
                            } else {
                                w2
                            };
                            let w4: WorldView = spec_cleanup_world(w3);
                            let kept: Seq<PendingInput> = spec_drain(s.pending, lhi);
                            SessionView {
                                world: spec_replay(w4, kept),
                                pending: kept,
                                input: spec_replay_input(s.input, kept),
                                ..s
                            }
                        },
                    }
                } else {
                    s
                }
            } else {
                SessionView { world: spec_remote_append(s.world, e, u.body, now), ..s }
            }
        },
    }
}

/// The session after a whole batch of entity updates, applied in order.
pub open spec fn spec_apply_updates(s: SessionView, us: Seq<EntityUpdate>, now: u64) -> SessionView
    decreases us.len(),
{
    if us.len() == 0 {
        s
    } else {
        spec_apply_updates(spec_apply_update(s, us[0], now), us.subrange(1, us.len() as int), now)
    }
}

/// Applying one more update continues from the applied state.
proof fn lemma_apply_updates_push(
    s: SessionView,
    us: Seq<EntityUpdate>,
    u: EntityUpdate,
    now: u64,
)
    ensures
        spec_apply_updates(s, us.push(u), now) == spec_apply_update(
            spec_apply_updates(s, us, now), u, now,
        ),
    decreases us.len(),
{
    reveal_with_fuel(spec_apply_updates, 3);
    if us.len() == 0 {
        assert(us.push(u)[0] == u);
        assert(us.push(u).subrange(1, 1) =~= Seq::<EntityUpdate>::empty());
    } else {
        assert(us.push(u)[0] == us[0]);
        assert(us.push(u).subrange(1, us.len() + 1 as int) =~= us.subrange(
            1, us.len() as int,
        ).push(u));
        lemma_apply_updates_push(
            spec_apply_update(s, us[0], now), us.subrange(1, us.len() as int), u, now,
        );
    }
}

/// Whether a batch timestamp is stale: not newer than the last applied one.
pub open spec fn spec_stale(s: SessionView, timestamp: u64) -> bool {
    match s.last_update_timestamp {
        Some(l) => timestamp <= l,
        None => false,
    }
}

/// The session after a batch update arrives: a stale batch changes nothing
/// at all; a fresh one advances the applied-batch timestamp and applies each
/// entity update in order.
pub open spec fn spec_handle_batch(
    s: SessionView,
    timestamp: u64,
    us: Seq<EntityUpdate>,
    now: u64,
) -> SessionView {
    if spec_stale(s, timestamp) {
        s
    } else {
        spec_apply_updates(
            SessionView { last_update_timestamp: Some(timestamp), ..s }, us, now,
        )
    }
}

/// The session after the join acknowledgement: if the session already has a
/// player or the id is taken, the message is dropped; otherwise the locally
/// controlled entity is created fully equipped.
pub open spec fn spec_join_ack(s: SessionView, id: u32, body: Body, life: i64) -> SessionView {
    if s.player_id is Some || s.world.find_id(id) is Some {
        s
    } else {
        SessionView {
            world: WorldView {
                alive: s.world.alive.push(true),
                bodies: s.world.bodies.push(Some(body)),
                blenders: s.world.blenders.push(Some(BlenderBody { prev: None, blended: None })),
                cannons: s.world.cannons.push(Some(Cannon {
                    cur_timeout: FIRE_TIMEOUT_MS,
                    max_timeout: FIRE_TIMEOUT_MS,
                })),
                interp: s.world.interp.push(None),
                network_ids: s.world.network_ids.push(Some(id)),
                controllable: s.world.controllable.push(true),
                accelerators: s.world.accelerators.push(Some(Accelerator {
                    accel: PLAYER_ACCELERATION,
                    decel: PLAYER_DECELERATION,
                })),
                ttls: s.world.ttls.push(None),
                lives: s.world.lives.push(Some(Life { cur: life, max: life })),
                shot_ids: s.world.shot_ids.push(None),
            },
            player_id: Some(id),
            ..s
        }
    }
}

/// The session after a remote entity (player or hazard) is created: dropped
/// when the id is already taken, else a new entity with body, life, network
/// id and an empty snapshot buffer.
pub open spec fn spec_create_remote(s: SessionView, id: u32, body: Body, life: i64) -> SessionView {
    if s.world.find_id(id) is Some {
        s
    } else {
        SessionView {
            world: WorldView {
                alive: s.world.alive.push(true),
                bodies: s.world.bodies.push(Some(body)),
                blenders: s.world.blenders.push(None),
                cannons: s.world.cannons.push(None),
                interp: s.world.interp.push(Some(Seq::<InterpolationPosition>::empty())),
                network_ids: s.world.network_ids.push(Some(id)),
                controllable: s.world.controllable.push(false),
                accelerators: s.world.accelerators.push(None),
                ttls: s.world.ttls.push(None),
                lives: s.world.lives.push(Some(Life { cur: life, max: life })),
                shot_ids: s.world.shot_ids.push(None),
            },
            ..s
        }
    }
}

/// The session after a server-owned projectile is created: a new entity
/// with a body and a lifetime only.
pub open spec fn spec_create_shot(s: SessionView, body: Body, ttl: i64) -> SessionView {
    SessionView {
        world: WorldView {
            alive: s.world.alive.push(true),
            bodies: s.world.bodies.push(Some(body)),
            blenders: s.world.blenders.push(None),
            cannons: s.world.cannons.push(None),
            interp: s.world.interp.push(None),
            network_ids: s.world.network_ids.push(None),
            controllable: s.world.controllable.push(false),
            accelerators: s.world.accelerators.push(None),
            ttls: s.world.ttls.push(Some(TimeToLive { ttl })),
            lives: s.world.lives.push(None),
            shot_ids: s.world.shot_ids.push(None),
        },
        ..s
    }
}

/// The session after a destroy message: the entity holding the id is
/// deleted, and an unknown id is dropped silently.
pub open spec fn spec_destroy(s: SessionView, id: u32) -> SessionView {
    match s.world.find_id(id) {
        None => s,
        Some(e) => SessionView {
            world: WorldView {
                alive: s.world.alive.update(e, false),
                bodies: s.world.bodies.update(e, None),
                blenders: s.world.blenders.update(e, None),
                cannons: s.world.cannons.update(e, None),
                interp: s.world.interp.update(e, None),
                network_ids: s.world.network_ids.update(e, None),
                controllable: s.world.controllable.update(e, false),
                accelerators: s.world.accelerators.update(e, None),
                ttls: s.world.ttls.update(e, None),
                lives: s.world.lives.update(e, None),
                shot_ids: s.world.shot_ids.update(e, None),
            },
            ..s
        },
    }
}

/// The session after a latency probe reply: a plausible probe (sent before
/// it returned, timestamps within range) overwrites the clock estimate,
/// anything else is dropped.
pub open spec fn spec_latency(
    s: SessionView,
    timestamp: u64,
    server_timestamp: u64,
    now: u64,
) -> SessionView {
    if timestamp <= now && server_timestamp <= TIME_LIMIT_MS {
        SessionView {
            latency: (now - timestamp) / 2,
            delta_time: server_timestamp - now,
            ..s
        }
    } else {
        s
    }
}

/// The session after one inbound message.
pub open spec fn spec_handle_inbound(s: SessionView, msg: Msg, now: u64) -> SessionView {
    match msg {
        Msg::JoinAck { id, body, life } => spec_join_ack(s, id, body, life),
        Msg::CreatePlayer { id, body, life } => spec_create_remote(s, id, body, life),
        Msg::CreateAsteroid { id, body, life } => spec_create_remote(s, id, body, life),
        Msg::CreateShot { body, ttl } => spec_create_shot(s, body, ttl),
        Msg::Destroy { id } => spec_destroy(s, id),
        Msg::SimUpdates { timestamp, updates } => spec_handle_batch(s, timestamp, updates@, now),
        Msg::Latency { timestamp, server_timestamp } => spec_latency(
            s, timestamp, server_timestamp, now,
        ),
        _ => s,
    }
}

impl Session {
    /// Apply one entity's slice of an authoritative batch update.
    fn apply_update(&mut self, u: &EntityUpdate, now: u64)
        requires
            old(self).inv(),
            u.wf(),
            now <= TIME_LIMIT_MS,
        ensures
            final(self).inv(),
            final(self)@ == spec_apply_update(old(self)@, *u, now),
    {
        let found: Option<usize> = self.world.find_network_id(u.id);
        proof {
            lemma_find_id_props(self.world@, u.id);
        }
        let e: usize = match found {
            None => {
                return;
            }
            Some(e) => e,
        };
        let is_player: bool = match self.player_id {
            Some(pid) => pid == u.id,
            None => false,
        };
        if !is_player {
            self.world.interp_add(e, u.body, now);
            proof {
                assert(self@ =~~= spec_apply_update(old(self)@, *u, now));
            }
            return;
        }
        let has_body: bool = match self.world.body(e) {
            Some(_) => true,
            None => false,
        };
        if !has_body {
            return;
        }
        self.world.set_body(e, u.body);
        match u.current_fire_timeout {
            Some(cd) => {
                let comp: i64 = self.server_clock.compensation();
                self.world.set_all_cannon_timeouts(cd - comp);
            }
            None => {}
        }
        let lhi: u32 = match u.last_handled_input {
            None => {
                proof {
                    assert(self@ =~~= spec_apply_update(old(self)@, *u, now));
                }
                return;
            }
            Some(lhi) => lhi,
        };
        let withdrawn: bool = match u.shot_confirmed {
            Some(c) => !c,
            None => false,
        };
        if withdrawn {
            self.world.mark_shots_unconfirmed(lhi);
        }
        let cleanup = UnconfirmedShotCleanup;
        cleanup.run(&mut self.world, SystemRunMode::Reconciliation);
        let ghost w4: WorldView = self.world@;
        let ghost input0: Input = self.input;
        let kept: Vec<PendingInput> = self.pending_inputs.get_state_after(lhi);
        let ghost kept_seq: Seq<PendingInput> = kept@;
        let ghost pending0: InputBuffer = self.pending_inputs;
        let ghost clock0: ServerClock = self.server_clock;
        let ghost acc0: i64 = self.time_acc;
        let ghost last0: Option<u64> = self.last_update_timestamp;
        let ghost pid0: Option<u32> = self.player_id;
        let ghost unconf0: Option<u32> = self.unconfirmed_shot_id;
        let kin = KinematicsPrediction;
        let n: usize = kept.len();
        let mut idx: usize = 0;
        proof {
            assert(kept_seq.subrange(0, 0) =~= Seq::<PendingInput>::empty());
        }
        while idx < n
            invariant
                self.world.inv(),
                self.pending_inputs == pending0,
                pending0.inv(),
                pending0.buf@ == kept_seq,
                self.server_clock == clock0,
                clock0.wf(),
                self.time_acc == acc0,
                0 <= acc0 <= TICK_MS,
                self.last_update_timestamp == last0,
                self.player_id == pid0,
                pid0 is Some,
                self.unconfirmed_shot_id == unconf0,
                n == kept_seq.len(),
                idx <= n,
                kept@ == kept_seq,
                forall|i: int| 0 <= i < n ==> (#[trigger] kept_seq[i].input).inv(),
                self.input.inv(),
                self.world@ == spec_replay(w4, kept_seq.subrange(0, idx as int)),
                self.input == spec_replay_input(input0, kept_seq.subrange(0, idx as int)),
            decreases n - idx,
        {
            let pi: PendingInput = kept[idx];
            self.input = pi.input;
            let ghost w_base: WorldView = self.world@;
            let steps: u32 = pi.full_update_steps;
            let mut t: u32 = 0;
            while t < steps
                invariant
                    self.world.inv(),
                    self.pending_inputs == pending0,
                    self.server_clock == clock0,
                    self.time_acc == acc0,
                    self.last_update_timestamp == last0,
                    self.player_id == pid0,
                    self.unconfirmed_shot_id == unconf0,
                    self.input == pi.input,
                    pi.input.inv(),
                    t <= steps,
                    self.world@ == spec_kin_ticks(w_base, pi.input, t as nat),
                decreases steps - t,
            {
                kin.run(&mut self.world, SystemRunMode::Reconciliation, &self.input);
                t = t + 1;
            }
            proof {
                lemma_replay_push(w4, kept_seq.subrange(0, idx as int), pi);
                assert(kept_seq.subrange(0, idx as int).push(pi) =~= kept_seq.subrange(
                    0, idx + 1 as int,
                ));
            }
            idx = idx + 1;
        }
        proof {
            assert(kept_seq.subrange(0, n as int) =~= kept_seq);
            assert(self@ =~~= spec_apply_update(old(self)@, *u, now));
        }
    }

    /// Apply an authoritative batch update: a stale batch (not newer than
    /// the last applied one) changes nothing; a fresh one applies each
    /// entity update in order, reconciling the local player and buffering
    /// snapshots for remote entities.
    pub fn handle_batch(&mut self, timestamp: u64, updates: &Vec<EntityUpdate>, now: u64)
        requires
            old(self).inv(),
            now <= TIME_LIMIT_MS,
            forall|i: int| 0 <= i < updates@.len() ==> (#[trigger] updates@[i]).wf(),
        ensures
            final(self).inv(),
            final(self)@ == spec_handle_batch(old(self)@, timestamp, updates@, now),
            spec_stale(old(self)@, timestamp) ==> final(self)@ == old(self)@,
    {
        let stale: bool = match self.last_update_timestamp {
            Some(l) => timestamp <= l,
            None => false,
        };
        if stale {
            return;
        }
        self.last_update_timestamp = Some(timestamp);
        let ghost s1: SessionView = self@;
        proof {
            assert(s1 =~~= (SessionView {
                last_update_timestamp: Some(timestamp),
                ..old(self)@
            }));
        }
        let n: usize = updates.len();
        let mut k: usize = 0;
        proof {
            assert(updates@.subrange(0, 0) =~= Seq::<EntityUpdate>::empty());
        }
        while k < n
            invariant
                self.inv(),
                n == updates@.len(),
                k <= n,
                forall|i: int| 0 <= i < updates@.len() ==> (#[trigger] updates@[i]).wf(),
                now <= TIME_LIMIT_MS,
                self@ == spec_apply_updates(s1, updates@.subrange(0, k as int), now),
            decreases n - k,
        {
            let u: EntityUpdate = updates[k];
            self.apply_update(&u, now);
            proof {
                lemma_apply_updates_push(s1, updates@.subrange(0, k as int), u, now);
                assert(updates@.subrange(0, k as int).push(u) =~= updates@.subrange(
                    0, k + 1 as int,
                ));
            }
            k = k + 1;
        }
        proof {
            assert(updates@.subrange(0, n as int) =~= updates@);
        }
    }

    /// React to the join acknowledgement: create the locally controlled
    /// entity, fully equipped, unless a player already exists or the id is
    /// taken.
    fn handle_join_ack(&mut self, id: u32, body: Body, life: i64)
        requires
            old(self).inv(),
            body.inv(),
            0 < life <= LIFE_LIMIT,
            old(self)@.world.len() < usize::MAX,
        ensures
            final(self).inv(),
            final(self)@ == spec_join_ack(old(self)@, id, body, life),
    {
        let joined: bool = self.player_id.is_some();
        let taken: bool = self.world.find_network_id(id).is_some();
        proof {
            lemma_find_id_props(self.world@, id);
        }
        if joined || taken {
            return;
        }
        let e: usize = self.world.create_entity();
        self.world.set_body(e, body);
        self.world.set_blender(e, BlenderBody::new());
        self.world.set_accelerator(
            e, crate::body::Accelerator::new(PLAYER_ACCELERATION, PLAYER_DECELERATION),
        );
        self.world.set_cannon(e, Cannon::new(FIRE_TIMEOUT_MS));
        self.world.set_life(e, Life::new(life));
        self.world.set_controllable(e);
        proof {
            assert forall|j: int|
                0 <= j < self.world@.len() && j != e
                    implies #[trigger] self.world@.network_ids[j] != Some(id) by {
                assert(self.world@.network_ids[j]
                    == old(self)@.world.network_ids.push(None)[j]);
                assert(self.world@.network_ids[j] == old(self)@.world.network_ids[j]);
                assert(self.world@.alive[j] == old(self)@.world.alive.push(true)[j]);
                if old(self)@.world.alive[j] {
                    assert(!(old(self)@.world.alive[j] && old(self)@.world.network_ids[j]
                        == Some(id)));
                } else {
                    assert(old(self)@.world.bodies[j] is None
                        && old(self)@.world.network_ids[j] is None);
                }
            }
        }
        self.world.set_network_id(e, id);
        self.player_id = Some(id);
        proof {
            assert(self@ =~~= spec_join_ack(old(self)@, id, body, life));
        }
    }

    /// React to a remote create message (another player or a hazard):
    /// create the entity with a snapshot buffer, unless the id is taken.
    fn handle_create_remote(&mut self, id: u32, body: Body, life: i64)
        requires
            old(self).inv(),
            body.inv(),
            0 < life <= LIFE_LIMIT,
            old(self)@.world.len() < usize::MAX,
        ensures
            final(self).inv(),
            final(self)@ == spec_create_remote(old(self)@, id, body, life),
    {
        let taken: bool = self.world.find_network_id(id).is_some();
        proof {
            lemma_find_id_props(self.world@, id);
        }
        if taken {
            return;
        }
        let e: usize = self.world.create_entity();
        self.world.set_body(e, body);
        self.world.set_life(e, Life::new(life));
        self.world.set_interp_buffer(e);
        proof {
            assert forall|j: int|
                0 <= j < self.world@.len() && j != e
                    implies #[trigger] self.world@.network_ids[j] != Some(id) by {
                assert(self.world@.network_ids[j]
                    == old(self)@.world.network_ids.push(None)[j]);
                assert(self.world@.network_ids[j] == old(self)@.world.network_ids[j]);
                assert(self.world@.alive[j] == old(self)@.world.alive.push(true)[j]);
                if old(self)@.world.alive[j] {
                    assert(!(old(self)@.world.alive[j] && old(self)@.world.network_ids[j]
                        == Some(id)));
                } else {
                    assert(old(self)@.world.bodies[j] is None
                        && old(self)@.world.network_ids[j] is None);
                }
            }
        }
        self.world.set_network_id(e, id);
        proof {
            assert(self@ =~~= spec_create_remote(old(self)@, id, body, life));
        }
    }

    /// React to a projectile create message: spawn a server-owned shot with
    /// its lifetime.
    fn handle_create_shot(&mut self, body: Body, ttl: i64)
        requires
            old(self).inv(),
            body.inv(),
            0 <= ttl <= LIFE_LIMIT,
            old(self)@.world.len() < usize::MAX,
        ensures
            final(self).inv(),
            final(self)@ == spec_create_shot(old(self)@, body, ttl),
    {
        let e: usize = self.world.create_entity();
        self.world.set_body(e, body);
        self.world.set_ttl(e, TimeToLive::new(ttl));
        proof {
            assert(self@ =~~= spec_create_shot(old(self)@, body, ttl));
        }
    }

    /// React to a destroy message: delete the entity holding the id, or
    /// drop the message silently when none does.
    fn handle_destroy(&mut self, id: u32)
        requires
            old(self).inv(),
        ensures
            final(self).inv(),
            final(self)@ == spec_destroy(old(self)@, id),
    {
        let found: Option<usize> = self.world.find_network_id(id);
        proof {
            lemma_find_id_props(self.world@, id);
        }
        match found {
            None => {}
            Some(e) => {
                self.world.delete_entity(e);
                proof {
                    assert(self@ =~~= spec_destroy(old(self)@, id));
                }
            }
        }
    }

    /// React to a latency probe reply: update the clock estimate from a
    /// plausible probe, drop an implausible one.
    fn handle_latency(&mut self, timestamp: u64, server_timestamp: u64, now: u64)
        requires
            old(self).inv(),
            now <= TIME_LIMIT_MS,
        ensures
            final(self).inv(),
            final(self)@ == spec_latency(old(self)@, timestamp, server_timestamp, now),
    {
        if timestamp <= now && server_timestamp <= TIME_LIMIT_MS {
            self.server_clock.update(timestamp, server_timestamp, now);
            proof {
                assert(self@ =~~= spec_latency(old(self)@, timestamp, server_timestamp, now));
            }
        }
    }

    /// Handle one inbound message at local time `now`.  Returns whether the
    /// session must terminate (the server is gone).
    pub fn handle_inbound(&mut self, msg: &Msg, now: u64) -> (terminate: bool)
        requires
            old(self).inv(),
            msg.wf(),
            now <= TIME_LIMIT_MS,
            old(self)@.world.len() < usize::MAX,
        ensures
            final(self).inv(),
            final(self)@ == spec_handle_inbound(old(self)@, *msg, now),
            terminate == (*msg is ServerNotResponding || *msg is ConnectionLost),
    {
        match msg {
            Msg::JoinAck { id, body, life } => {
                self.handle_join_ack(*id, *body, *life);
                false
            }
            Msg::CreatePlayer { id, body, life } => {
                self.handle_create_remote(*id, *body, *life);
                false
            }
            Msg::CreateAsteroid { id, body, life } => {
                self.handle_create_remote(*id, *body, *life);
                false
            }
            Msg::CreateShot { body, ttl } => {
                self.handle_create_shot(*body, *ttl);
                false
            }
            Msg::Destroy { id } => {
                self.handle_destroy(*id);
                false
            }
            Msg::SimUpdates { timestamp, updates } => {
                self.handle_batch(*timestamp, updates, now);
                false
            }
            Msg::Latency { timestamp, server_timestamp } => {
                self.handle_latency(*timestamp, *server_timestamp, now);
                false
            }
            Msg::Unknown => false,
            Msg::Heartbeat => false,
            Msg::ServerNotResponding => true,
            Msg::ConnectionLost => true,
        }
    }
}


/// One full prediction tick: kinematics, then shooting.
pub open spec fn spec_predict_tick(w: WorldView, input: Input, shot_id: Option<u32>) -> WorldView {
    spec_shoot_world(spec_kin_world(w, input), input, shot_id)
}

/// `n` full prediction ticks.
pub open spec fn spec_predict_ticks(
    w: WorldView,
    input: Input,
    shot_id: Option<u32>,
    n: nat,
) -> WorldView
    decreases n,
{
    if n == 0 {
        w
    } else {
        spec_predict_tick(spec_predict_ticks(w, input, shot_id, (n - 1) as nat), input, shot_id)
    }
}

/// The input history after one tick was observed: the tick count of the
/// most recent entry grows by one (saturating); an empty history stays
/// empty.
pub open spec fn spec_bump_last(s: Seq<PendingInput>) -> Seq<PendingInput> {
    if s.len() == 0 {
        s
    } else {
        let last: int = s.len() - 1;
        let entry: PendingInput = s[last];
        s.update(
            last,
            PendingInput {
                full_update_steps: if entry.full_update_steps < u32::MAX {
                    (entry.full_update_steps + 1) as u32
                } else {
                    entry.full_update_steps
                },
                ..entry
            },
        )
    }
}

/// The input history after `n` observed ticks.
pub open spec fn spec_bump_ticks(s: Seq<PendingInput>, n: nat) -> Seq<PendingInput>
    decreases n,
{
    if n == 0 {
        s
    } else {
        spec_bump_last(spec_bump_ticks(s, (n - 1) as nat))
    }
}

/// How many fixed ticks an accumulated frame time triggers: one for each
/// full tick interval beyond the first.
pub open spec fn spec_tick_count(acc: int) -> nat
    decreases acc,
{
    if acc > TICK_MS {
        1 + spec_tick_count(acc - TICK_MS)
    } else {
        0
    }
}

/// The tick count never exceeds the accumulated milliseconds.
proof fn lemma_tick_count_le(acc: int)
    ensures
        spec_tick_count(acc) <= (if acc > 0 { acc } else { 0 }),
    decreases acc,
{
    if acc > TICK_MS {
        lemma_tick_count_le(acc - TICK_MS);
    }
}

/// The render-time interpolation parameters for local time `now`: sampling
/// is offset into the past, and the blend factor is the fraction of the
/// current fixed tick already accumulated.
pub open spec fn spec_render_params(s: SessionView, now: u64) -> InterpolationParams {
    InterpolationParams {
        render_timestamp: if now >= RENDER_DELAY_MS {
            (now - RENDER_DELAY_MS) as u64
        } else {
            0u64
        },
        blend_num: s.time_acc as i64,
        blend_den: TICK_MS,
    }
}

/// What the session hands back when a key transition changed the effective
/// input: the delta to send, the sequence number it was recorded under, and
/// the firing pose if the cannon was ready.
#[derive(Clone, Copy, Debug, PartialEq, Eq)]
pub struct OutboundInput {
    pub delta: InputDelta,
    pub sequence_num: u32,
    pub body_then: Option<Body>,
}

impl Session {
    /// Record the current effective input under a fresh sequence number and
    /// assemble the outgoing message data.
    fn record_input(&mut self, delta: InputDelta) -> (r: OutboundInput)
        requires
            old(self).inv(),
            old(self)@.pending_counter < u32::MAX,
        ensures
            final(self).inv(),
            ({
                let seq: u32 = (old(self)@.pending_counter + 1) as u32;
                &&& final(self)@ == (SessionView {
                    pending: old(self)@.pending.push(
                        PendingInput {
                            sequence_number: seq,
                            full_update_steps: 0,
                            input: old(self)@.input,
                        },
                    ),
                    pending_counter: seq,
                    unconfirmed_shot_id: if old(self)@.world.find_cannon() is Some {
                        Some(seq)
                    } else {
                        old(self)@.unconfirmed_shot_id
                    },
                    ..old(self)@
                })
                &&& r.delta == delta
                &&& r.sequence_num == seq
                &&& r.body_then == (match old(self)@.world.find_cannon() {
                    Some(c) => {
                        if old(self)@.world.cannons[c]->Some_0.cur_timeout == 0 {
                            old(self)@.world.bodies[c]
                        } else {
                            Option::<Body>::None
                        }
                    },
                    None => Option::<Body>::None,
                })
            }),
    {
        let seq: u32 = self.pending_inputs.add(self.input);
        let found: Option<usize> = self.world.find_cannon_entity();
        let body_then: Option<Body> = match found {
            Some(c) => {
                let ready: bool = match self.world.cannon(c) {
                    Some(cn) => cn.ready_to_fire(),
                    None => false,
                };
                if ready {
                    self.world.body(c)
                } else {
                    None
                }
            }
            None => None,
        };
        if found.is_some() {
            self.unconfirmed_shot_id = Some(seq);
        }
        proof {
            assert(self@ =~~= (SessionView {
                pending: old(self)@.pending.push(
                    PendingInput {
                        sequence_number: seq,
                        full_update_steps: 0,
                        input: old(self)@.input,
                    },
                ),
                pending_counter: seq,
                unconfirmed_shot_id: if old(self)@.world.find_cannon() is Some {
                    Some(seq)
                } else {
                    old(self)@.unconfirmed_shot_id
                },
                ..old(self)@
            }));
        }
        OutboundInput { delta, sequence_num: seq, body_then }
    }

    /// React to a key press.  When it changes the effective input, the
    /// change is recorded in the replay history and the outgoing delta is
    /// returned.
    pub fn key_down(&mut self, key: Key, repeat: bool) -> (r: Option<OutboundInput>)
        requires
            old(self).inv(),
            old(self)@.pending_counter < u32::MAX,
        ensures
            final(self).inv(),
            (repeat || key is Other) ==> {
                &&& final(self)@ == old(self)@
                &&& r is None
            },
            !(repeat || key is Other) ==> {
                let ns: Input = crate::input::spec_key_down_state(old(self)@.input, key);
                let seq: u32 = (old(self)@.pending_counter + 1) as u32;
                &&& final(self)@ == (SessionView {
                    input: ns,
                    pending: old(self)@.pending.push(
                        PendingInput { sequence_number: seq, full_update_steps: 0, input: ns },
                    ),
                    pending_counter: seq,
                    unconfirmed_shot_id: if old(self)@.world.find_cannon() is Some {
                        Some(seq)
                    } else {
                        old(self)@.unconfirmed_shot_id
                    },
                    ..old(self)@
                })
                &&& r is Some
                &&& r->Some_0.delta == crate::input::spec_input_diff(ns, old(self)@.input)
                &&& r->Some_0.sequence_num == seq
            },
    {
        let maybe: Option<InputDelta> = self.input.key_down(key, repeat);
        match maybe {
            Some(delta) => {
                let out: OutboundInput = self.record_input(delta);
                proof {
                    assert(self@ =~~= (SessionView {
                        input: crate::input::spec_key_down_state(old(self)@.input, key),
                        pending: old(self)@.pending.push(
                            PendingInput {
                                sequence_number: (old(self)@.pending_counter + 1) as u32,
                                full_update_steps: 0,
                                input: crate::input::spec_key_down_state(old(self)@.input, key),
                            },
                        ),
                        pending_counter: (old(self)@.pending_counter + 1) as u32,
                        unconfirmed_shot_id: if old(self)@.world.find_cannon() is Some {
                            Some((old(self)@.pending_counter + 1) as u32)
                        } else {
                            old(self)@.unconfirmed_shot_id
                        },
                        ..old(self)@
                    }));
                }
                Some(out)
            }
            None => None,
        }
    }

    /// React to a key release, like `key_down` but without repeat edges.
    pub fn key_up(&mut self, key: Key) -> (r: Option<OutboundInput>)
        requires
            old(self).inv(),
            old(self)@.pending_counter < u32::MAX,
        ensures
            final(self).inv(),
            key is Other ==> {
                &&& final(self)@ == old(self)@
                &&& r is None
            },
            !(key is Other) ==> {
                let ns: Input = crate::input::spec_key_up_state(old(self)@.input, key);
                let seq: u32 = (old(self)@.pending_counter + 1) as u32;
                &&& final(self)@ == (SessionView {
                    input: ns,
                    pending: old(self)@.pending.push(
                        PendingInput { sequence_number: seq, full_update_steps: 0, input: ns },
                    ),
                    pending_counter: seq,
                    unconfirmed_shot_id: if old(self)@.world.find_cannon() is Some {
                        Some(seq)
                    } else {
                        old(self)@.unconfirmed_shot_id
                    },
                    ..old(self)@
                })
                &&& r is Some
                &&& r->Some_0.delta == crate::input::spec_input_diff(ns, old(self)@.input)
                &&& r->Some_0.sequence_num == seq
            },
    {
        let maybe: Option<InputDelta> = self.input.key_up(key);
        match maybe {
            Some(delta) => {
                let out: OutboundInput = self.record_input(delta);
                proof {
                    assert(self@ =~~= (SessionView {
                        input: crate::input::spec_key_up_state(old(self)@.input, key),
                        pending: old(self)@.pending.push(
                            PendingInput {
                                sequence_number: (old(self)@.pending_counter + 1) as u32,
                                full_update_steps: 0,
                                input: crate::input::spec_key_up_state(old(self)@.input, key),
                            },
                        ),
                        pending_counter: (old(self)@.pending_counter + 1) as u32,
                        unconfirmed_shot_id: if old(self)@.world.find_cannon() is Some {
                            Some((old(self)@.pending_counter + 1) as u32)
                        } else {
                            old(self)@.unconfirmed_shot_id
                        },
                        ..old(self)@
                    }));
                }
                Some(out)
            }
            None => None,
        }
    }

    /// Advance the fixed-tick simulation by `frame_ms` milliseconds of real
    /// time: run one prediction dispatch (kinematics, then shooting) per
    /// full tick interval accumulated, and note each tick in the input
    /// history for later replay.
    pub fn advance_fixed_tick(&mut self, frame_ms: i64)
        requires
            old(self).inv(),
            0 <= frame_ms <= 1_000_000,
            old(self)@.world.len() + 2_000_000 < usize::MAX,
        ensures
            final(self).inv(),
            ({
                let ticks: nat = spec_tick_count(old(self)@.time_acc + frame_ms);
                final(self)@ == (SessionView {
                    world: spec_predict_ticks(
                        old(self)@.world,
                        old(self)@.input,
                        old(self)@.unconfirmed_shot_id,
                        ticks,
                    ),
                    pending: spec_bump_ticks(old(self)@.pending, ticks),
                    time_acc: old(self)@.time_acc + frame_ms - ticks * TICK_MS,
                    ..old(self)@
                })
            }),
    {
        let ghost w0: WorldView = self.world@;
        let ghost p0: Seq<PendingInput> = self.pending_inputs.buf@;
        let ghost input0: Input = self.input;
        let ghost sid0: Option<u32> = self.unconfirmed_shot_id;
        let ghost counter0: u32 = self.pending_inputs.sequence_number;
        let ghost clock0: ServerClock = self.server_clock;
        let ghost last0: Option<u64> = self.last_update_timestamp;
        let ghost pid0: Option<u32> = self.player_id;
        let ghost acc1: int = self.time_acc + frame_ms;
        self.time_acc = self.time_acc + frame_ms;
        let kin = KinematicsPrediction;
        let shooting = Shooting;
        let ghost mut done: nat = 0nat;
        proof {
            lemma_tick_count_le(acc1);
        }
        while self.time_acc > TICK_MS
            invariant
                self.world.inv(),
                self.pending_inputs.inv(),
                self.pending_inputs.sequence_number == counter0,
                self.server_clock == clock0,
                clock0.wf(),
                self.input == input0,
                input0.inv(),
                self.last_update_timestamp == last0,
                self.player_id == pid0,
                self.unconfirmed_shot_id == sid0,
                (pid0 is None ==> forall|i: int|
                    0 <= i < self.world@.len() ==> #[trigger] self.world@.cannons[i] is None),
                0 <= self.time_acc,
                self.time_acc == acc1 - done * TICK_MS,
                done + spec_tick_count(self.time_acc as int) == spec_tick_count(acc1),
                spec_tick_count(acc1) <= 1_001_000,
                self.world@ == spec_predict_ticks(w0, input0, sid0, done),
                self.pending_inputs.buf@ == spec_bump_ticks(p0, done),
                self.world@.len() <= w0.len() + done,
                w0.len() + 2_000_000 < usize::MAX,
            decreases self.time_acc,
        {
            kin.run(&mut self.world, SystemRunMode::Prediction, &self.input);
            shooting.run(
                &mut self.world, SystemRunMode::Prediction, &self.input, self.unconfirmed_shot_id,
            );
            proof {
                if pid0 is None {
                    lemma_find_cannon_props(spec_kin_world(
                        spec_predict_ticks(w0, input0, sid0, done), input0,
                    ));
                }
            }
            self.pending_inputs.increase_update_step();
            self.time_acc = self.time_acc - TICK_MS;
            proof {
                done = done + 1;
                assert(self.pending_inputs.buf@ =~= spec_bump_ticks(p0, done));
            }
        }
        proof {
            assert(spec_tick_count(self.time_acc as int) == 0);
            assert(self@ =~~= (SessionView {
                world: spec_predict_ticks(w0, input0, sid0, spec_tick_count(acc1)),
                pending: spec_bump_ticks(p0, spec_tick_count(acc1)),
                time_acc: acc1 - spec_tick_count(acc1) * TICK_MS,
                ..old(self)@
            }));
        }
    }

    /// Prepare render poses for local time `now`: sample remote entities a
    /// fixed delay in the past and blend the locally simulated pose by the
    /// fraction of the current tick already elapsed.
    pub fn sample_for_render(&mut self, now: u64)
        requires
            old(self).inv(),
            now <= TIME_LIMIT_MS,
        ensures
            final(self).inv(),
            final(self)@ == (SessionView {
                world: spec_interp_world(
                    old(self)@.world, spec_render_params(old(self)@, now),
                ),
                ..old(self)@
            }),
    {
        let ts: u64 = if now >= RENDER_DELAY_MS {
            now - RENDER_DELAY_MS
        } else {
            0
        };
        let params = InterpolationParams {
            render_timestamp: ts,
            blend_num: self.time_acc,
            blend_den: TICK_MS,
        };
        let interp = Interpolation;
        interp.run(&mut self.world, SystemRunMode::Interpolation(params));
        proof {
            assert(self@ =~~= (SessionView {
                world: spec_interp_world(
                    old(self)@.world, spec_render_params(old(self)@, now),
                ),
                ..old(self)@
            }));
        }
    }
}

} // verus!
