//! Local input tracking: raw key edges become semantic input state, changes
//! become input deltas for the server, and a replayable history of pending
//! inputs is kept until the server acknowledges them.

use vstd::prelude::*;

verus! {

/// A key the game reacts to.  `Other` stands for any key without a binding;
/// transitions on it never change the input state.
#[derive(Clone, Copy, Debug, PartialEq, Eq, Structural)]
pub enum Key {
    /// Thrust forward.
    Up,
    /// Slow down.
    Down,
    /// Turn counterclockwise.
    Left,
    /// Turn clockwise.
    Right,
    /// Fire.
    Space,
    /// Any unbound key.
    Other,
}

/// The player's effective input state: turn direction, thrust direction, and
/// whether fire is held.
#[derive(Clone, Copy, Debug, PartialEq, Eq, Structural)]
pub struct Input {
    pub turn: i64,
    pub accel: i64,
    pub fire: bool,
}

/// The fields of the input state that changed in one transition, to be sent
/// to the server.
#[derive(Clone, Copy, Debug, PartialEq, Eq)]
pub struct InputDelta {
    pub turn: Option<i64>,
    pub accel: Option<i64>,
    pub fire: Option<bool>,
}

/// The input state after a key is pressed.
pub open spec fn spec_key_down_state(s: Input, key: Key) -> Input {
    match key {
        Key::Up => Input { accel: 1, ..s },
        Key::Down => Input { accel: -1i64, ..s },
        Key::Left => Input { turn: -1i64, ..s },
        Key::Right => Input { turn: 1, ..s },
        Key::Space => Input { fire: true, ..s },
        Key::Other => s,
    }
}

/// The input state after a key is released.
pub open spec fn spec_key_up_state(s: Input, key: Key) -> Input {
    match key {
        Key::Up => Input { accel: 0, ..s },
        Key::Down => Input { accel: 0, ..s },
        Key::Left => Input { turn: 0, ..s },
        Key::Right => Input { turn: 0, ..s },
        Key::Space => Input { fire: false, ..s },
        Key::Other => s,
    }
}

/// The delta holding exactly the fields in which `new_state` differs from
/// `old_state`.
pub open spec fn spec_input_diff(new_state: Input, old_state: Input) -> InputDelta {
    InputDelta {
        turn: if new_state.turn != old_state.turn {
            Some(new_state.turn)
        } else {
            None
        },
        accel: if new_state.accel != old_state.accel {
            Some(new_state.accel)
        } else {
            None
        },
        fire: if new_state.fire != old_state.fire {
            Some(new_state.fire)
        } else {
            None
        },
    }
}

impl Input {
    pub open spec fn inv(&self) -> bool {
        -1 <= self.turn <= 1 && -1 <= self.accel <= 1
    }

    /// The neutral input state: no turn, no thrust, no fire.
    pub fn new() -> (r: Self)
        ensures
            r.inv(),
            r == (Input { turn: 0, accel: 0, fire: false }),
    {
        Self { turn: 0, accel: 0, fire: false }
    }

    fn diff(&self, old_state: &Input) -> (r: InputDelta)
        ensures
            r == spec_input_diff(*self, *old_state),
    {
        InputDelta {
            turn: if self.turn != old_state.turn {
                Some(self.turn)
            } else {
                None
            },
            accel: if self.accel != old_state.accel {
                Some(self.accel)
            } else {
                None
            },
            fire: if self.fire != old_state.fire {
                Some(self.fire)
            } else {
                None
            },
        }
    }

    /// React to a key press.  Repeat edges and unbound keys change nothing
    /// and produce no delta; otherwise the state is updated and the delta of
    /// changed fields is returned.
    pub fn key_down(&mut self, key: Key, repeat: bool) -> (r: Option<InputDelta>)
        requires
            old(self).inv(),
        ensures
            final(self).inv(),
            (repeat || key is Other) ==> {
                &&& *final(self) == *old(self)
                &&& r is None
            },
            !(repeat || key is Other) ==> {
                &&& *final(self) == spec_key_down_state(*old(self), key)
                &&& r == Some(spec_input_diff(*final(self), *old(self)))
            },
    {
        if repeat {
            return None;
        }
        let old_state: Input = *self;
        match key {
            Key::Up => {
                self.accel = 1;
            }
            Key::Down => {
                self.accel = -1;
            }
            Key::Left => {
                self.turn = -1;
            }
            Key::Right => {
                self.turn = 1;
            }
            Key::Space => {
                self.fire = true;
            }
            Key::Other => {
                return None;
            }
        }
        Some(self.diff(&old_state))
    }

    /// React to a key release.  Unbound keys change nothing and produce no
    /// delta; otherwise the state is updated and the delta of changed fields
    /// is returned.
    pub fn key_up(&mut self, key: Key) -> (r: Option<InputDelta>)
        requires
            old(self).inv(),
        ensures
            final(self).inv(),
            key is Other ==> {
                &&& *final(self) == *old(self)
                &&& r is None
            },
            !(key is Other) ==> {
                &&& *final(self) == spec_key_up_state(*old(self), key)
                &&& r == Some(spec_input_diff(*final(self), *old(self)))
            },
    {
        let old_state: Input = *self;
        match key {
            Key::Up | Key::Down => {
                self.accel = 0;
            }
            Key::Left | Key::Right => {
                self.turn = 0;
            }
            Key::Space => {
                self.fire = false;
            }
            Key::Other => {
                return None;
            }
        }
        Some(self.diff(&old_state))
    }
}

/// Equality of two optional integers.
fn opt_i64_eq(a: &Option<i64>, b: &Option<i64>) -> (r: bool)
    ensures
        r == (a == b),
{
    match (a, b) {
        (Option::None, Option::None) => true,
        (Option::Some(x), Option::Some(y)) => x == y,
        _ => false,
    }
}

/// Equality of two optional booleans.
fn opt_bool_eq(a: &Option<bool>, b: &Option<bool>) -> (r: bool)
    ensures
        r == (a == b),
{
    match (a, b) {
        (Option::None, Option::None) => true,
        (Option::Some(x), Option::Some(y)) => x == y,
        _ => false,
    }
}

impl InputDelta {
    /// A delta that changes no field.
    pub fn is_empty(&self) -> (r: bool)
        ensures
            r == (self.turn is None && self.accel is None && self.fire is None),
    {
        self.turn.is_none() && self.accel.is_none() && self.fire.is_none()
    }

    /// Merge a later delta into this one: fields the later delta sets win,
    /// fields it leaves open keep their value here.  Returns whether anything
    /// changed.
    pub fn update(&mut self, other: &InputDelta) -> (r: bool)
        ensures
            final(self).turn == (if other.turn is Some { other.turn } else { old(self).turn }),
            final(self).accel == (if other.accel is Some { other.accel } else { old(self).accel }),
            final(self).fire == (if other.fire is Some { other.fire } else { old(self).fire }),
            r == (*final(self) != *old(self)),
    {
        let new_turn: Option<i64> = if other.turn.is_some() {
            other.turn
        } else {
            self.turn
        };
        let new_accel: Option<i64> = if other.accel.is_some() {
            other.accel
        } else {
            self.accel
        };
        let new_fire: Option<bool> = if other.fire.is_some() {
            other.fire
        } else {
            self.fire
        };
        let updated: bool = !opt_i64_eq(&new_turn, &self.turn)
            || !opt_i64_eq(&new_accel, &self.accel) || !opt_bool_eq(&new_fire, &self.fire);
        self.turn = new_turn;
        self.accel = new_accel;
        self.fire = new_fire;
        updated
    }
}

/// One entry of the replay history: the sequence number the change was sent
/// under, how many fixed ticks ran while it was the active input, and the
/// full input state itself.
#[derive(Clone, Copy, Debug, PartialEq, Eq)]
pub struct PendingInput {
    pub sequence_number: u32,
    pub full_update_steps: u32,
    pub input: Input,
}

/// How many entries draining after `q` removes from the front: every leading
/// entry with sequence number at or below `q`.
pub open spec fn spec_drain_count(s: Seq<PendingInput>, q: u32) -> int
    decreases s.len(),
{
    if s.len() == 0 || s[0].sequence_number > q {
        0
    } else {
        1 + spec_drain_count(s.subrange(1, s.len() as int), q)
    }
}

/// The history retained after draining everything acknowledged by `q`.
pub open spec fn spec_drain(s: Seq<PendingInput>, q: u32) -> Seq<PendingInput> {
    s.subrange(spec_drain_count(s, q), s.len() as int)
}

/// Any count with "everything dropped was acknowledged" and "the next entry
/// is unacknowledged or missing" is the drain count.
proof fn lemma_drain_count_unique(s: Seq<PendingInput>, q: u32, k: int)
    requires
        0 <= k <= s.len(),
        forall|i: int| 0 <= i < k ==> #[trigger] s[i].sequence_number <= q,
        k == s.len() || s[k].sequence_number > q,
    ensures
        k == spec_drain_count(s, q),
    decreases s.len(),
{
    if k == 0 {
        if s.len() > 0 {
            assert(s[0].sequence_number > q);
        }
    } else {
        assert(s[0int].sequence_number <= q);
        let tail: Seq<PendingInput> = s.subrange(1, s.len() as int);
        assert forall|i: int| 0 <= i < k - 1 implies #[trigger] tail[i].sequence_number <= q by {
            assert(tail[i] == s[i + 1]);
            assert(s[i + 1].sequence_number <= q);
        }
        if k - 1 < tail.len() {
            assert(tail[k - 1] == s[k]);
        }
        lemma_drain_count_unique(tail, q, k - 1);
    }
}

/// Replayable history of input changes not yet acknowledged by the server,
/// in strictly increasing sequence order.
pub struct InputBuffer {
    pub buf: Vec<PendingInput>,
    pub sequence_number: u32,
}

impl InputBuffer {
    /// Entries are strictly ordered by sequence number, never exceed the
    /// counter, and hold well-formed input states.
    pub open spec fn inv(&self) -> bool {
        &&& forall|i: int, j: int|
            0 <= i < j < self.buf@.len() ==> #[trigger] self.buf@[i].sequence_number
                < #[trigger] self.buf@[j].sequence_number
        &&& forall|i: int|
            0 <= i < self.buf@.len() ==> #[trigger] self.buf@[i].sequence_number
                <= self.sequence_number
        &&& forall|i: int| 0 <= i < self.buf@.len() ==> (#[trigger] self.buf@[i].input).inv()
    }

    pub fn new() -> (r: Self)
        ensures
            r.inv(),
            r.buf@.len() == 0,
            r.sequence_number == 0,
    {
        Self { buf: Vec::new(), sequence_number: 0 }
    }

    /// Record a new effective input state under a fresh sequence number,
    /// which is returned so the caller can attach it to the outgoing delta.
    pub fn add(&mut self, input: Input) -> (r: u32)
        requires
            old(self).inv(),
            old(self).sequence_number < u32::MAX,
            input.inv(),
        ensures
            final(self).inv(),
            r == old(self).sequence_number + 1,
            final(self).sequence_number == r,
            final(self).buf@ == old(self).buf@.push(
                PendingInput { sequence_number: r, full_update_steps: 0, input },
            ),
    {
        self.sequence_number = self.sequence_number + 1;
        self.buf.push(PendingInput {
            sequence_number: self.sequence_number,
            full_update_steps: 0,
            input,
        });
        self.sequence_number
    }

    /// Note that one fixed simulation tick ran under the most recently
    /// recorded input, so reconciliation knows how many steps to replay for
    /// it.  The counter saturates; with no recorded input this does nothing.
    pub fn increase_update_step(&mut self)
        requires
            old(self).inv(),
        ensures
            final(self).inv(),
            final(self).sequence_number == old(self).sequence_number,
            old(self).buf@.len() == 0 ==> final(self).buf@ == old(self).buf@,
            old(self).buf@.len() > 0 ==> {
                let last: int = old(self).buf@.len() - 1;
                let entry: PendingInput = old(self).buf@[last];
                final(self).buf@ == old(self).buf@.update(
                    last,
                    PendingInput {
                        full_update_steps: (if entry.full_update_steps < u32::MAX {
                            (entry.full_update_steps + 1) as u32
                        } else {
                            entry.full_update_steps
                        }),
                        ..entry
                    },
                )
            },
    {
        let n: usize = self.buf.len();
        if n > 0 {
            let entry: PendingInput = self.buf[n - 1];
            let steps: u32 = if entry.full_update_steps < u32::MAX {
                entry.full_update_steps + 1
            } else {
                entry.full_update_steps
            };
            self.buf.set(n - 1, PendingInput { full_update_steps: steps, ..entry });
            proof {
                assert(self.buf@ =~= old(self).buf@.update(
                    n - 1 as int,
                    PendingInput { full_update_steps: steps, ..entry },
                ));
            }
        }
    }

    /// Drop every entry already acknowledged (sequence number at or below
    /// `sequence_number`) and return the entries that still need replay, in
    /// order.  The returned entries all carry sequence numbers greater than
    /// `sequence_number`, and they are exactly what the tracker retains.
    pub fn get_state_after(&mut self, sequence_number: u32) -> (r: Vec<PendingInput>)
        requires
            old(self).inv(),
        ensures
            final(self).inv(),
            final(self).sequence_number == old(self).sequence_number,
            r@ == final(self).buf@,
            final(self).buf@ == spec_drain(old(self).buf@, sequence_number),
            forall|i: int|
                0 <= i < old(self).buf@.len() - final(self).buf@.len()
                    ==> #[trigger] old(self).buf@[i].sequence_number <= sequence_number,
            forall|i: int|
                0 <= i < final(self).buf@.len()
                    ==> #[trigger] final(self).buf@[i].sequence_number > sequence_number,
    {
        let ghost orig: Seq<PendingInput> = self.buf@;
        let orig_len: usize = self.buf.len();
        proof {
            assert(orig.subrange(0, orig.len() as int) =~= orig);
            assert(orig.len() == orig_len);
        }
        let mut dropped: usize = 0;
        loop
            invariant
                self.inv(),
                self.sequence_number == old(self).sequence_number,
                dropped <= orig.len() <= usize::MAX,
                self.buf@ == orig.subrange(dropped as int, orig.len() as int),
                forall|i: int|
                    0 <= i < dropped ==> #[trigger] orig[i].sequence_number <= sequence_number,
            ensures
                self.inv(),
                self.sequence_number == old(self).sequence_number,
                dropped <= orig.len(),
                self.buf@ == orig.subrange(dropped as int, orig.len() as int),
                forall|i: int|
                    0 <= i < dropped ==> #[trigger] orig[i].sequence_number <= sequence_number,
                self.buf@.len() == 0 || self.buf@[0].sequence_number > sequence_number,
            decreases orig.len() - dropped,
        {
            if self.buf.len() == 0 {
                break;
            }
            let front: PendingInput = self.buf[0];
            if front.sequence_number > sequence_number {
                break;
            }
            self.buf.remove(0);
            proof {
                assert(self.buf@ =~= orig.subrange(dropped + 1 as int, orig.len() as int));
            }
            dropped = dropped + 1;
        }
        proof {
            assert forall|i: int| 0 <= i < self.buf@.len()
                implies #[trigger] self.buf@[i].sequence_number > sequence_number by {
                if i > 0 {
                    assert(self.buf@[0].sequence_number < self.buf@[i].sequence_number);
                }
            }
            if self.buf@.len() > 0 {
                assert(self.buf@[0] == orig[dropped as int]);
            }
            lemma_drain_count_unique(orig, sequence_number, dropped as int);
            assert(self.buf@ =~= spec_drain(orig, sequence_number));
        }
        let mut out: Vec<PendingInput> = Vec::new();
        let mut idx: usize = 0;
        while idx < self.buf.len()
            invariant
                idx <= self.buf@.len(),
                out@ == self.buf@.subrange(0, idx as int),
            decreases self.buf@.len() - idx,
        {
            out.push(self.buf[idx]);
            proof {
                assert(out@ =~= self.buf@.subrange(0, idx + 1 as int));
            }
            idx = idx + 1;
        }
        proof {
            assert(out@ =~= self.buf@);
            assert(self.buf@ =~= orig.subrange(
                orig.len() - self.buf@.len(),
                orig.len() as int,
            ));
        }
        out
    }
}

} // verus!
