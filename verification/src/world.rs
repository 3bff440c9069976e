//! Entity/component table: a dense arena of entity slots with one sparse
//! component column per component type.  "Has capability X" is "the entry in
//! column X is present".  The ghost view `WorldView` models the whole table
//! as sequences, so simulation passes can state exactly how they transform
//! the world.

use vstd::prelude::*;
use crate::body::{Accelerator, BlenderBody, Body};
use crate::cannon::{spec_timeout_clip, Cannon};
use crate::interp::{spec_sample, spec_trimmed, InterpolationBuffer, InterpolationPosition};
use crate::clock::TIME_LIMIT_MS;
use crate::life::{Life, TimeToLive};

verus! {

/// The input sequence number under which a speculative projectile was
/// spawned, and whether the server still confirms it.
#[derive(Clone, Copy, Debug, PartialEq, Eq, Structural)]
pub struct ShotNetworkId {
    pub sequence: u32,
    pub confirmed: bool,
}

/// The whole entity table as plain mathematical sequences, one per column.
#[verifier::ext_equal]
pub ghost struct WorldView {
    pub alive: Seq<bool>,
    pub bodies: Seq<Option<Body>>,
    pub blenders: Seq<Option<BlenderBody>>,
    pub cannons: Seq<Option<Cannon>>,
    pub interp: Seq<Option<Seq<InterpolationPosition>>>,
    pub network_ids: Seq<Option<u32>>,
    pub controllable: Seq<bool>,
    pub accelerators: Seq<Option<Accelerator>>,
    pub ttls: Seq<Option<TimeToLive>>,
    pub lives: Seq<Option<Life>>,
    pub shot_ids: Seq<Option<ShotNetworkId>>,
}

impl WorldView {
    pub open spec fn len(self) -> int {
        self.alive.len() as int
    }

    /// A snapshot sequence is time-ordered with bounded timestamps and
    /// well-formed bodies.
    pub open spec fn interp_wf(s: Seq<InterpolationPosition>) -> bool {
        &&& forall|i: int, j: int|
            0 <= i < j < s.len() ==> #[trigger] s[i].timestamp < #[trigger] s[j].timestamp
        &&& forall|i: int| 0 <= i < s.len() ==> #[trigger] s[i].timestamp <= TIME_LIMIT_MS
        &&& forall|i: int| 0 <= i < s.len() ==> (#[trigger] s[i].body).inv()
    }

    /// All columns have the table's length.
    pub open spec fn columns_wf(self) -> bool {
        &&& self.bodies.len() == self.alive.len()
        &&& self.blenders.len() == self.alive.len()
        &&& self.cannons.len() == self.alive.len()
        &&& self.interp.len() == self.alive.len()
        &&& self.network_ids.len() == self.alive.len()
        &&& self.controllable.len() == self.alive.len()
        &&& self.accelerators.len() == self.alive.len()
        &&& self.ttls.len() == self.alive.len()
        &&& self.lives.len() == self.alive.len()
        &&& self.shot_ids.len() == self.alive.len()
    }

    /// Every present component is well formed.
    pub open spec fn components_wf(self) -> bool {
        &&& forall|i: int|
            0 <= i < self.len() && self.bodies[i] is Some
                ==> (#[trigger] self.bodies[i])->Some_0.inv()
        &&& forall|i: int|
            0 <= i < self.len() && self.blenders[i] is Some
                ==> (#[trigger] self.blenders[i])->Some_0.inv()
        &&& forall|i: int|
            0 <= i < self.len() && self.cannons[i] is Some
                ==> (#[trigger] self.cannons[i])->Some_0.inv()
        &&& forall|i: int|
            0 <= i < self.len() && self.interp[i] is Some
                ==> Self::interp_wf((#[trigger] self.interp[i])->Some_0)
        &&& forall|i: int|
            0 <= i < self.len() && self.accelerators[i] is Some
                ==> (#[trigger] self.accelerators[i])->Some_0.inv()
        &&& forall|i: int|
            0 <= i < self.len() && self.ttls[i] is Some
                ==> (#[trigger] self.ttls[i])->Some_0.inv()
        &&& forall|i: int|
            0 <= i < self.len() && self.lives[i] is Some
                ==> (#[trigger] self.lives[i])->Some_0.inv()
    }

    /// A slot that is not alive holds no components.
    pub open spec fn dead_slots_clear(self) -> bool {
        forall|i: int|
            0 <= i < self.len() && !self.alive[i] ==> {
                &&& #[trigger] self.bodies[i] is None
                &&& self.blenders[i] is None
                &&& self.cannons[i] is None
                &&& self.interp[i] is None
                &&& self.network_ids[i] is None
                &&& !self.controllable[i]
                &&& self.accelerators[i] is None
                &&& self.ttls[i] is None
                &&& self.lives[i] is None
                &&& self.shot_ids[i] is None
            }
    }

    /// At most one entity holds a given network id, at most one entity
    /// holds a cannon, and a cannon implies a body to fire from.
    pub open spec fn tags_wf(self) -> bool {
        &&& forall|i: int, j: int|
            0 <= i < self.len() && 0 <= j < self.len() && #[trigger] self.network_ids[i] is Some
                && #[trigger] self.network_ids[j] is Some
                && self.network_ids[i] == self.network_ids[j] ==> i == j
        &&& forall|i: int, j: int|
            0 <= i < self.len() && 0 <= j < self.len() && #[trigger] self.cannons[i] is Some
                && #[trigger] self.cannons[j] is Some ==> i == j
        &&& forall|i: int|
            0 <= i < self.len() && #[trigger] self.cannons[i] is Some ==> self.bodies[i] is Some
    }

    pub open spec fn wf(self) -> bool {
        &&& self.columns_wf()
        &&& self.components_wf()
        &&& self.dead_slots_clear()
        &&& self.tags_wf()
    }

    /// The slot holding network id `id`, searching from `i` upward.
    pub open spec fn find_id_from(self, id: u32, i: int) -> Option<int>
        decreases self.len() - i,
    {
        if i < 0 || i >= self.len() {
            None
        } else if self.alive[i] && self.network_ids[i] == Some(id) {
            Some(i)
        } else {
            self.find_id_from(id, i + 1)
        }
    }

    /// The slot of the entity holding network id `id`, if any.
    pub open spec fn find_id(self, id: u32) -> Option<int> {
        self.find_id_from(id, 0)
    }

    /// The slot of the entity holding the cannon, searching from `i` upward.
    pub open spec fn find_cannon_from(self, i: int) -> Option<int>
        decreases self.len() - i,
    {
        if i < 0 || i >= self.len() {
            None
        } else if self.alive[i] && self.cannons[i] is Some {
            Some(i)
        } else {
            self.find_cannon_from(i + 1)
        }
    }

    /// The slot of the entity holding the cannon, if any.
    pub open spec fn find_cannon(self) -> Option<int> {
        self.find_cannon_from(0)
    }
}

/// The entity table itself: one dense alive column plus one sparse component
/// column per component type.
pub struct World {
    pub alive: Vec<bool>,
    pub bodies: Vec<Option<Body>>,
    pub blenders: Vec<Option<BlenderBody>>,
    pub cannons: Vec<Option<Cannon>>,
    pub interp_buffers: Vec<Option<InterpolationBuffer>>,
    pub network_ids: Vec<Option<u32>>,
    pub controllable: Vec<bool>,
    pub accelerators: Vec<Option<Accelerator>>,
    pub ttls: Vec<Option<TimeToLive>>,
    pub lives: Vec<Option<Life>>,
    pub shot_ids: Vec<Option<ShotNetworkId>>,
}

impl View for World {
    type V = WorldView;

    open spec fn view(&self) -> WorldView {
        WorldView {
            alive: self.alive@,
            bodies: self.bodies@,
            blenders: self.blenders@,
            cannons: self.cannons@,
            interp: Seq::new(
                self.interp_buffers@.len(),
                |i: int| match self.interp_buffers@[i] {
                    Some(b) => Some(b.buf@),
                    None => None,
                },
            ),
            network_ids: self.network_ids@,
            controllable: self.controllable@,
            accelerators: self.accelerators@,
            ttls: self.ttls@,
            lives: self.lives@,
            shot_ids: self.shot_ids@,
        }
    }
}

impl World {
    pub open spec fn inv(&self) -> bool {
        self@.wf()
    }

    pub fn new() -> (r: Self)
        ensures
            r.inv(),
            r@.len() == 0,
    {
        let w = World {
            alive: Vec::new(),
            bodies: Vec::new(),
            blenders: Vec::new(),
            cannons: Vec::new(),
            interp_buffers: Vec::new(),
            network_ids: Vec::new(),
            controllable: Vec::new(),
            accelerators: Vec::new(),
            ttls: Vec::new(),
            lives: Vec::new(),
            shot_ids: Vec::new(),
        };
        w
    }

    pub fn num_entities(&self) -> (r: usize)
        ensures
            r == self@.len(),
    {
        self.alive.len()
    }

    /// Add a fresh, component-free entity slot and return its handle.
    pub fn create_entity(&mut self) -> (e: usize)
        requires
            old(self).inv(),
            old(self)@.len() < usize::MAX,
        ensures
            final(self).inv(),
            e == old(self)@.len(),
            final(self)@ == (WorldView {
                alive: old(self)@.alive.push(true),
                bodies: old(self)@.bodies.push(None),
                blenders: old(self)@.blenders.push(None),
                cannons: old(self)@.cannons.push(None),
                interp: old(self)@.interp.push(None),
                network_ids: old(self)@.network_ids.push(None),
                controllable: old(self)@.controllable.push(false),
                accelerators: old(self)@.accelerators.push(None),
                ttls: old(self)@.ttls.push(None),
                lives: old(self)@.lives.push(None),
                shot_ids: old(self)@.shot_ids.push(None),
            }),
    {
        let e: usize = self.alive.len();
        self.alive.push(true);
        self.bodies.push(None);
        self.blenders.push(None);
        self.cannons.push(None);
        self.interp_buffers.push(None);
        self.network_ids.push(None);
        self.controllable.push(false);
        self.accelerators.push(None);
        self.ttls.push(None);
        self.lives.push(None);
        self.shot_ids.push(None);
        proof {
            assert(self@ =~~= (WorldView {
                alive: old(self)@.alive.push(true),
                bodies: old(self)@.bodies.push(None),
                blenders: old(self)@.blenders.push(None),
                cannons: old(self)@.cannons.push(None),
                interp: old(self)@.interp.push(None),
                network_ids: old(self)@.network_ids.push(None),
                controllable: old(self)@.controllable.push(false),
                accelerators: old(self)@.accelerators.push(None),
                ttls: old(self)@.ttls.push(None),
                lives: old(self)@.lives.push(None),
                shot_ids: old(self)@.shot_ids.push(None),
            }));
        }
        e
    }

    /// Remove an entity and every component it holds; the slot stays dead.
    pub fn delete_entity(&mut self, e: usize)
        requires
            old(self).inv(),
            e < old(self)@.len(),
        ensures
            final(self).inv(),
            final(self)@ == (WorldView {
                alive: old(self)@.alive.update(e as int, false),
                bodies: old(self)@.bodies.update(e as int, None),
                blenders: old(self)@.blenders.update(e as int, None),
                cannons: old(self)@.cannons.update(e as int, None),
                interp: old(self)@.interp.update(e as int, None),
                network_ids: old(self)@.network_ids.update(e as int, None),
                controllable: old(self)@.controllable.update(e as int, false),
                accelerators: old(self)@.accelerators.update(e as int, None),
                ttls: old(self)@.ttls.update(e as int, None),
                lives: old(self)@.lives.update(e as int, None),
                shot_ids: old(self)@.shot_ids.update(e as int, None),
            }),
    {
        self.alive.set(e, false);
        self.bodies.set(e, None);
        self.blenders.set(e, None);
        self.cannons.set(e, None);
        self.interp_buffers.set(e, None);
        self.network_ids.set(e, None);
        self.controllable.set(e, false);
        self.accelerators.set(e, None);
        self.ttls.set(e, None);
        self.lives.set(e, None);
        self.shot_ids.set(e, None);
        proof {
            assert(self@ =~~= (WorldView {
                alive: old(self)@.alive.update(e as int, false),
                bodies: old(self)@.bodies.update(e as int, None),
                blenders: old(self)@.blenders.update(e as int, None),
                cannons: old(self)@.cannons.update(e as int, None),
                interp: old(self)@.interp.update(e as int, None),
                network_ids: old(self)@.network_ids.update(e as int, None),
                controllable: old(self)@.controllable.update(e as int, false),
                accelerators: old(self)@.accelerators.update(e as int, None),
                ttls: old(self)@.ttls.update(e as int, None),
                lives: old(self)@.lives.update(e as int, None),
                shot_ids: old(self)@.shot_ids.update(e as int, None),
            }));
        }
    }

    /// The slot of the entity holding the cannon, if any.
    pub fn find_cannon_entity(&self) -> (r: Option<usize>)
        requires
            self.inv(),
        ensures
            r is Some ==> {
                let c: int = r->Some_0 as int;
                &&& self@.find_cannon() == Some(c)
                &&& 0 <= c < self@.len()
                &&& self@.alive[c]
                &&& self@.cannons[c] is Some
                &&& self@.bodies[c] is Some
            },
            r is None ==> self@.find_cannon() is None,
    {
        let n: usize = self.alive.len();
        let mut idx: usize = 0;
        while idx < n
            invariant
                self.inv(),
                n == self@.len(),
                idx <= n,
                self@.find_cannon() == self@.find_cannon_from(idx as int),
            decreases n - idx,
        {
            let here: bool = self.alive[idx] && match self.cannons[idx] {
                Some(_) => true,
                None => false,
            };
            if here {
                return Some(idx);
            }
            idx = idx + 1;
        }
        None
    }

    /// The slot of the entity holding network id `id`, if any.
    pub fn find_network_id(&self, id: u32) -> (r: Option<usize>)
        requires
            self.inv(),
        ensures
            r is Some ==> self@.find_id(id) == Some(r->Some_0 as int),
            r is None ==> self@.find_id(id) is None,
    {
        let n: usize = self.alive.len();
        let mut idx: usize = 0;
        while idx < n
            invariant
                self.inv(),
                n == self@.len(),
                idx <= n,
                self@.find_id(id) == self@.find_id_from(id, idx as int),
            decreases n - idx,
        {
            let matches_here: bool = self.alive[idx] && match self.network_ids[idx] {
                Some(nid) => nid == id,
                None => false,
            };
            if matches_here {
                return Some(idx);
            }
            idx = idx + 1;
        }
        None
    }

    pub fn is_alive(&self, e: usize) -> (r: bool)
        requires
            e < self@.len(),
        ensures
            r == self@.alive[e as int],
    {
        self.alive[e]
    }

    pub fn is_controllable(&self, e: usize) -> (r: bool)
        requires
            self.inv(),
            e < self@.len(),
        ensures
            r == self@.controllable[e as int],
    {
        self.controllable[e]
    }

    pub fn body(&self, e: usize) -> (r: Option<Body>)
        requires
            self.inv(),
            e < self@.len(),
        ensures
            r == self@.bodies[e as int],
    {
        self.bodies[e]
    }

    pub fn blender(&self, e: usize) -> (r: Option<BlenderBody>)
        requires
            self.inv(),
            e < self@.len(),
        ensures
            r == self@.blenders[e as int],
    {
        self.blenders[e]
    }

    pub fn cannon(&self, e: usize) -> (r: Option<Cannon>)
        requires
            self.inv(),
            e < self@.len(),
        ensures
            r == self@.cannons[e as int],
    {
        self.cannons[e]
    }

    pub fn accelerator(&self, e: usize) -> (r: Option<Accelerator>)
        requires
            self.inv(),
            e < self@.len(),
        ensures
            r == self@.accelerators[e as int],
    {
        self.accelerators[e]
    }

    pub fn ttl(&self, e: usize) -> (r: Option<TimeToLive>)
        requires
            self.inv(),
            e < self@.len(),
        ensures
            r == self@.ttls[e as int],
    {
        self.ttls[e]
    }

    pub fn life(&self, e: usize) -> (r: Option<Life>)
        requires
            self.inv(),
            e < self@.len(),
        ensures
            r == self@.lives[e as int],
    {
        self.lives[e]
    }

    pub fn shot_id(&self, e: usize) -> (r: Option<ShotNetworkId>)
        requires
            self.inv(),
            e < self@.len(),
        ensures
            r == self@.shot_ids[e as int],
    {
        self.shot_ids[e]
    }

    pub fn network_id(&self, e: usize) -> (r: Option<u32>)
        requires
            self.inv(),
            e < self@.len(),
        ensures
            r == self@.network_ids[e as int],
    {
        self.network_ids[e]
    }

    /// Attach or replace the physical body of a live entity.
    pub fn set_body(&mut self, e: usize, body: Body)
        requires
            old(self).inv(),
            e < old(self)@.len(),
            old(self)@.alive[e as int],
            body.inv(),
        ensures
            final(self).inv(),
            final(self)@ == (WorldView {
                bodies: old(self)@.bodies.update(e as int, Some(body)),
                ..old(self)@
            }),
    {
        self.bodies.set(e, Some(body));
        proof {
            assert(self@ =~~= (WorldView {
                bodies: old(self)@.bodies.update(e as int, Some(body)),
                ..old(self)@
            }));
        }
    }

    /// Attach a fresh render-pose blender to a live entity.
    pub fn set_blender(&mut self, e: usize, blender: BlenderBody)
        requires
            old(self).inv(),
            e < old(self)@.len(),
            old(self)@.alive[e as int],
            blender.inv(),
        ensures
            final(self).inv(),
            final(self)@ == (WorldView {
                blenders: old(self)@.blenders.update(e as int, Some(blender)),
                ..old(self)@
            }),
    {
        self.blenders.set(e, Some(blender));
        proof {
            assert(self@ =~~= (WorldView {
                blenders: old(self)@.blenders.update(e as int, Some(blender)),
                ..old(self)@
            }));
        }
    }

    /// Attach the weapon cooldown to a live entity with a body; only one
    /// entity may carry a cannon.
    pub fn set_cannon(&mut self, e: usize, cannon: Cannon)
        requires
            old(self).inv(),
            e < old(self)@.len(),
            old(self)@.alive[e as int],
            old(self)@.bodies[e as int] is Some,
            cannon.inv(),
            forall|j: int|
                0 <= j < old(self)@.len() && j != e ==> old(self)@.cannons[j] is None,
        ensures
            final(self).inv(),
            final(self)@ == (WorldView {
                cannons: old(self)@.cannons.update(e as int, Some(cannon)),
                ..old(self)@
            }),
    {
        self.cannons.set(e, Some(cannon));
        proof {
            assert(self@ =~~= (WorldView {
                cannons: old(self)@.cannons.update(e as int, Some(cannon)),
                ..old(self)@
            }));
        }
    }

    /// Attach an empty snapshot buffer to a live entity.
    pub fn set_interp_buffer(&mut self, e: usize)
        requires
            old(self).inv(),
            e < old(self)@.len(),
            old(self)@.alive[e as int],
        ensures
            final(self).inv(),
            final(self)@ == (WorldView {
                interp: old(self)@.interp.update(e as int, Some(Seq::<InterpolationPosition>::empty())),
                ..old(self)@
            }),
    {
        self.interp_buffers.set(e, Some(InterpolationBuffer::new()));
        proof {
            assert(self@ =~~= (WorldView {
                interp: old(self)@.interp.update(e as int, Some(Seq::<InterpolationPosition>::empty())),
                ..old(self)@
            }));
        }
    }

    /// Give a live entity a network id no other entity holds.
    pub fn set_network_id(&mut self, e: usize, id: u32)
        requires
            old(self).inv(),
            e < old(self)@.len(),
            old(self)@.alive[e as int],
            forall|j: int|
                0 <= j < old(self)@.len() && j != e
                    ==> #[trigger] old(self)@.network_ids[j] != Some(id),
        ensures
            final(self).inv(),
            final(self)@ == (WorldView {
                network_ids: old(self)@.network_ids.update(e as int, Some(id)),
                ..old(self)@
            }),
    {
        self.network_ids.set(e, Some(id));
        proof {
            assert(self@ =~~= (WorldView {
                network_ids: old(self)@.network_ids.update(e as int, Some(id)),
                ..old(self)@
            }));
        }
    }

    /// Mark a live entity as locally controlled.
    pub fn set_controllable(&mut self, e: usize)
        requires
            old(self).inv(),
            e < old(self)@.len(),
            old(self)@.alive[e as int],
        ensures
            final(self).inv(),
            final(self)@ == (WorldView {
                controllable: old(self)@.controllable.update(e as int, true),
                ..old(self)@
            }),
    {
        self.controllable.set(e, true);
        proof {
            assert(self@ =~~= (WorldView {
                controllable: old(self)@.controllable.update(e as int, true),
                ..old(self)@
            }));
        }
    }

    /// Attach acceleration rates to a live entity.
    pub fn set_accelerator(&mut self, e: usize, acc: Accelerator)
        requires
            old(self).inv(),
            e < old(self)@.len(),
            old(self)@.alive[e as int],
            acc.inv(),
        ensures
            final(self).inv(),
            final(self)@ == (WorldView {
                accelerators: old(self)@.accelerators.update(e as int, Some(acc)),
                ..old(self)@
            }),
    {
        self.accelerators.set(e, Some(acc));
        proof {
            assert(self@ =~~= (WorldView {
                accelerators: old(self)@.accelerators.update(e as int, Some(acc)),
                ..old(self)@
            }));
        }
    }

    /// Attach a lifetime to a live entity.
    pub fn set_ttl(&mut self, e: usize, ttl: TimeToLive)
        requires
            old(self).inv(),
            e < old(self)@.len(),
            old(self)@.alive[e as int],
            ttl.inv(),
        ensures
            final(self).inv(),
            final(self)@ == (WorldView {
                ttls: old(self)@.ttls.update(e as int, Some(ttl)),
                ..old(self)@
            }),
    {
        self.ttls.set(e, Some(ttl));
        proof {
            assert(self@ =~~= (WorldView {
                ttls: old(self)@.ttls.update(e as int, Some(ttl)),
                ..old(self)@
            }));
        }
    }

    /// Attach hit points to a live entity.
    pub fn set_life(&mut self, e: usize, life: Life)
        requires
            old(self).inv(),
            e < old(self)@.len(),
            old(self)@.alive[e as int],
            life.inv(),
        ensures
            final(self).inv(),
            final(self)@ == (WorldView {
                lives: old(self)@.lives.update(e as int, Some(life)),
                ..old(self)@
            }),
    {
        self.lives.set(e, Some(life));
        proof {
            assert(self@ =~~= (WorldView {
                lives: old(self)@.lives.update(e as int, Some(life)),
                ..old(self)@
            }));
        }
    }

    /// Tag a live entity as a speculative projectile spawned under the given
    /// input sequence number.
    pub fn set_shot_id(&mut self, e: usize, shot: ShotNetworkId)
        requires
            old(self).inv(),
            e < old(self)@.len(),
            old(self)@.alive[e as int],
        ensures
            final(self).inv(),
            final(self)@ == (WorldView {
                shot_ids: old(self)@.shot_ids.update(e as int, Some(shot)),
                ..old(self)@
            }),
    {
        self.shot_ids.set(e, Some(shot));
        proof {
            assert(self@ =~~= (WorldView {
                shot_ids: old(self)@.shot_ids.update(e as int, Some(shot)),
                ..old(self)@
            }));
        }
    }

    /// Append a snapshot to the snapshot buffer of entity `e`, if it has
    /// one; returns whether the snapshot was kept.
    pub fn interp_add(&mut self, e: usize, body: Body, timestamp: u64) -> (kept: bool)
        requires
            old(self).inv(),
            e < old(self)@.len(),
            body.inv(),
            timestamp <= TIME_LIMIT_MS,
        ensures
            final(self).inv(),
            old(self)@.interp[e as int] is None ==> {
                &&& final(self)@ == old(self)@
                &&& !kept
            },
            old(self)@.interp[e as int] is Some ==> {
                let s: Seq<InterpolationPosition> = old(self)@.interp[e as int]->Some_0;
                &&& kept == (s.len() == 0 || s.last().timestamp < timestamp)
                &&& (kept ==> final(self)@ == (WorldView {
                    interp: old(self)@.interp.update(
                        e as int,
                        Some(s.push(InterpolationPosition { timestamp, body })),
                    ),
                    ..old(self)@
                }))
                &&& (!kept ==> final(self)@ == old(self)@)
            },
    {
        let dup: Option<InterpolationBuffer> = match &self.interp_buffers[e] {
            Some(b) => Some(b.duplicate()),
            None => None,
        };
        match dup {
            Some(mut b) => {
                let kept: bool = b.add(body, timestamp);
                self.interp_buffers.set(e, Some(b));
                proof {
                    if kept {
                        assert(self@ =~~= (WorldView {
                            interp: old(self)@.interp.update(
                                e as int,
                                Some(old(self)@.interp[e as int]->Some_0.push(
                                    InterpolationPosition { timestamp, body },
                                )),
                            ),
                            ..old(self)@
                        }));
                    } else {
                        assert(self@ =~~= old(self)@);
                    }
                }
                kept
            }
            None => {
                proof {
                    assert(self@ =~~= old(self)@);
                }
                false
            }
        }
    }

    /// Sample the snapshot buffer of entity `e` at `timestamp`, evicting
    /// stale snapshots; with no buffer, nothing happens.
    pub fn interp_sample(&mut self, e: usize, timestamp: u64) -> (r: Option<Body>)
        requires
            old(self).inv(),
            e < old(self)@.len(),
        ensures
            final(self).inv(),
            old(self)@.interp[e as int] is None ==> {
                &&& final(self)@ == old(self)@
                &&& r is None
            },
            old(self)@.interp[e as int] is Some ==> {
                let s: Seq<InterpolationPosition> = old(self)@.interp[e as int]->Some_0;
                &&& r == spec_sample(s, timestamp)
                &&& final(self)@ == (WorldView {
                    interp: old(self)@.interp.update(e as int, Some(spec_trimmed(s, timestamp))),
                    ..old(self)@
                })
                &&& (r is Some ==> r->Some_0.inv())
            },
    {
        let dup: Option<InterpolationBuffer> = match &self.interp_buffers[e] {
            Some(b) => Some(b.duplicate()),
            None => None,
        };
        match dup {
            Some(mut b) => {
                let r: Option<Body> = b.interpolate(timestamp);
                self.interp_buffers.set(e, Some(b));
                proof {
                    assert(self@ =~~= (WorldView {
                        interp: old(self)@.interp.update(
                            e as int,
                            Some(spec_trimmed(old(self)@.interp[e as int]->Some_0, timestamp)),
                        ),
                        ..old(self)@
                    }));
                }
                r
            }
            None => {
                proof {
                    assert(self@ =~~= old(self)@);
                }
                None
            }
        }
    }

    /// Overwrite the remaining cooldown of every cannon in the world (there
    /// is at most one) with a server-corrected value, clipped to the range a
    /// cannon keeps.
    pub fn set_all_cannon_timeouts(&mut self, timeout: i64)
        requires
            old(self).inv(),
        ensures
            final(self).inv(),
            final(self)@ == (WorldView {
                cannons: Seq::new(
                    old(self)@.cannons.len(),
                    |i: int| match old(self)@.cannons[i] {
                        Some(c) => Some(Cannon {
                            cur_timeout: spec_timeout_clip(timeout as int) as i64,
                            max_timeout: c.max_timeout,
                        }),
                        None => None,
                    },
                ),
                ..old(self)@
            }),
    {
        let ghost w0: WorldView = self@;
        let n: usize = self.cannons.len();
        let mut e: usize = 0;
        while e < n
            invariant
                self.inv(),
                w0.wf(),
                n == self@.len(),
                n == w0.len(),
                e <= n,
                self@.alive == w0.alive,
                self@.bodies == w0.bodies,
                self@.blenders == w0.blenders,
                self@.interp == w0.interp,
                self@.network_ids == w0.network_ids,
                self@.controllable == w0.controllable,
                self@.accelerators == w0.accelerators,
                self@.ttls == w0.ttls,
                self@.lives == w0.lives,
                self@.shot_ids == w0.shot_ids,
                forall|i: int| e <= i < n ==> #[trigger] self@.cannons[i] == w0.cannons[i],
                forall|i: int|
                    0 <= i < e ==> #[trigger] self@.cannons[i] == (match w0.cannons[i] {
                        Some(c) => Some(Cannon {
                            cur_timeout: spec_timeout_clip(timeout as int) as i64,
                            max_timeout: c.max_timeout,
                        }),
                        None => None,
                    }),
            decreases n - e,
        {
            let ghost prev: WorldView = self@;
            match self.cannons[e] {
                Some(c) => {
                    let mut cn: Cannon = c;
                    cn.set_current_timeout(timeout);
                    self.cannons.set(e, Some(cn));
                    proof {
                        assert(self@ =~~= (WorldView {
                            cannons: prev.cannons.update(e as int, Some(cn)),
                            ..prev
                        }));
                    }
                }
                None => {}
            }
            e = e + 1;
        }
        proof {
            assert(self@ =~~= (WorldView {
                cannons: Seq::new(
                    w0.cannons.len(),
                    |i: int| match w0.cannons[i] {
                        Some(c) => Some(Cannon {
                            cur_timeout: spec_timeout_clip(timeout as int) as i64,
                            max_timeout: c.max_timeout,
                        }),
                        None => None,
                    },
                ),
                ..w0
            }));
        }
    }

    /// Withdraw the confirmation of every speculative projectile spawned
    /// under input sequence number `sequence`, so a cleanup pass deletes it.
    pub fn mark_shots_unconfirmed(&mut self, sequence: u32)
        requires
            old(self).inv(),
        ensures
            final(self).inv(),
            final(self)@ == (WorldView {
                shot_ids: Seq::new(
                    old(self)@.shot_ids.len(),
                    |i: int| match old(self)@.shot_ids[i] {
                        Some(t) => Some(ShotNetworkId {
                            sequence: t.sequence,
                            confirmed: t.confirmed && t.sequence != sequence,
                        }),
                        None => None,
                    },
                ),
                ..old(self)@
            }),
    {
        let ghost w0: WorldView = self@;
        let n: usize = self.shot_ids.len();
        let mut e: usize = 0;
        while e < n
            invariant
                self.inv(),
                w0.wf(),
                n == self@.len(),
                n == w0.len(),
                e <= n,
                self@.alive == w0.alive,
                self@.bodies == w0.bodies,
                self@.blenders == w0.blenders,
                self@.cannons == w0.cannons,
                self@.interp == w0.interp,
                self@.network_ids == w0.network_ids,
                self@.controllable == w0.controllable,
                self@.accelerators == w0.accelerators,
                self@.ttls == w0.ttls,
                self@.lives == w0.lives,
                forall|i: int| e <= i < n ==> #[trigger] self@.shot_ids[i] == w0.shot_ids[i],
                forall|i: int|
                    0 <= i < e ==> #[trigger] self@.shot_ids[i] == (match w0.shot_ids[i] {
                        Some(t) => Some(ShotNetworkId {
                            sequence: t.sequence,
                            confirmed: t.confirmed && t.sequence != sequence,
                        }),
                        None => None,
                    }),
            decreases n - e,
        {
            let ghost prev: WorldView = self@;
            match self.shot_ids[e] {
                Some(t) => {
                    let tag = ShotNetworkId {
                        sequence: t.sequence,
                        confirmed: t.confirmed && t.sequence != sequence,
                    };
                    self.shot_ids.set(e, Some(tag));
                    proof {
                        assert(self@ =~~= (WorldView {
                            shot_ids: prev.shot_ids.update(e as int, Some(tag)),
                            ..prev
                        }));
                    }
                }
                None => {}
            }
            e = e + 1;
        }
        proof {
            assert(self@ =~~= (WorldView {
                shot_ids: Seq::new(
                    w0.shot_ids.len(),
                    |i: int| match w0.shot_ids[i] {
                        Some(t) => Some(ShotNetworkId {
                            sequence: t.sequence,
                            confirmed: t.confirmed && t.sequence != sequence,
                        }),
                        None => None,
                    },
                ),
                ..w0
            }));
        }
    }
}

/// What a cannon search result means: a hit is a live entity holding the
/// cannon, a miss means no live entity holds one.
pub proof fn lemma_find_cannon_props(w: WorldView)
    ensures
        w.find_cannon() is Some ==> {
            let c: int = w.find_cannon()->Some_0;
            &&& 0 <= c < w.len()
            &&& w.alive[c]
            &&& w.cannons[c] is Some
        },
        w.find_cannon() is None ==> forall|j: int|
            0 <= j < w.len() ==> !(w.alive[j] && #[trigger] w.cannons[j] is Some),
{
    lemma_find_cannon_from_props(w, 0);
}

proof fn lemma_find_cannon_from_props(w: WorldView, i: int)
    requires
        0 <= i,
    ensures
        w.find_cannon_from(i) is Some ==> {
            let c: int = w.find_cannon_from(i)->Some_0;
            &&& i <= c < w.len()
            &&& w.alive[c]
            &&& w.cannons[c] is Some
        },
        w.find_cannon_from(i) is None ==> forall|j: int|
            i <= j < w.len() ==> !(w.alive[j] && #[trigger] w.cannons[j] is Some),
    decreases w.len() - i,
{
    if i < w.len() && !(w.alive[i] && w.cannons[i] is Some) {
        lemma_find_cannon_from_props(w, i + 1);
    }
}

/// What a find result means: a hit is a live entity holding the id, a miss
/// means no live entity holds it.
pub proof fn lemma_find_id_props(w: WorldView, id: u32)
    requires
        w.columns_wf(),
    ensures
        w.find_id(id) is Some ==> {
            let e: int = w.find_id(id)->Some_0;
            &&& 0 <= e < w.len()
            &&& w.alive[e]
            &&& w.network_ids[e] == Some(id)
        },
        w.find_id(id) is None ==> forall|j: int|
            0 <= j < w.len() ==> !(w.alive[j] && #[trigger] w.network_ids[j] == Some(id)),
{
    lemma_find_id_from_props(w, id, 0);
}

proof fn lemma_find_id_from_props(w: WorldView, id: u32, i: int)
    requires
        0 <= i,
    ensures
        w.find_id_from(id, i) is Some ==> {
            let e: int = w.find_id_from(id, i)->Some_0;
            &&& i <= e < w.len()
            &&& w.alive[e]
            &&& w.network_ids[e] == Some(id)
        },
        w.find_id_from(id, i) is None ==> forall|j: int|
            i <= j < w.len() ==> !(w.alive[j] && #[trigger] w.network_ids[j] == Some(id)),
    decreases w.len() - i,
{
    if i < w.len() && !(w.alive[i] && w.network_ids[i] == Some(id)) {
        lemma_find_id_from_props(w, id, i + 1);
    }
}

} // verus!
