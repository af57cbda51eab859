use vstd::prelude::*;
use crate::action::{Action, Entity, STEP_NANOS, make_movement_action};
use crate::grid::{IVec3, squared_length, zero3};
use crate::timer::Timer;

verus! {

/// The keys that the movement controller tells apart. `KeyE`, `KeyD`, `KeyS`
/// and `KeyF` step forward, back, left and right.
#[derive(Clone, Copy, Debug, PartialEq, Eq, Structural)]
pub enum KeyCode {
    KeyE,
    KeyS,
    KeyD,
    KeyF,
    F1,
    Other,
}

/// Nanoseconds that a lone movement key waits for a partner.
pub const CHORD_WINDOW_NANOS: u64 = 40_000_000;

/// The unit step of a movement key; every other key gives no step.
pub open spec fn key_direction(k: KeyCode) -> (int, int, int) {
    match k {
        KeyCode::KeyE => (0, 1, 0),
        KeyCode::KeyD => (0, -1, 0),
        KeyCode::KeyS => (-1, 0, 0),
        KeyCode::KeyF => (1, 0, 0),
        _ => (0, 0, 0),
    }
}

pub open spec fn add3(a: (int, int, int), b: (int, int, int)) -> (int, int, int) {
    (a.0 + b.0, a.1 + b.1, a.2 + b.2)
}

/// Two movement keys on different axes, which together make a diagonal.
pub open spec fn is_pair(k: KeyCode, m: KeyCode) -> bool {
    (key_direction(k).0 != 0 && key_direction(m).1 != 0) || (key_direction(k).1 != 0
        && key_direction(m).0 != 0)
}

pub open spec fn count_of(keys: Seq<KeyCode>) -> int {
    (if keys.contains(KeyCode::KeyE) { 1int } else { 0 }) + (if keys.contains(KeyCode::KeyS) {
        1int
    } else {
        0
    }) + (if keys.contains(KeyCode::KeyD) { 1int } else { 0 }) + (if keys.contains(KeyCode::KeyF) {
        1int
    } else {
        0
    })
}

/// The sum of the unit steps of the distinct movement keys in `keys`.
pub open spec fn sum_of(keys: Seq<KeyCode>) -> (int, int, int) {
    let e = if keys.contains(KeyCode::KeyE) { key_direction(KeyCode::KeyE) } else { zero3() };
    let s = if keys.contains(KeyCode::KeyS) { key_direction(KeyCode::KeyS) } else { zero3() };
    let d = if keys.contains(KeyCode::KeyD) { key_direction(KeyCode::KeyD) } else { zero3() };
    let f = if keys.contains(KeyCode::KeyF) { key_direction(KeyCode::KeyF) } else { zero3() };
    add3(add3(e, s), add3(d, f))
}

/// The movement key of `keys` when it holds exactly one.
pub open spec fn single_of(keys: Seq<KeyCode>) -> KeyCode {
    if keys.contains(KeyCode::KeyE) {
        KeyCode::KeyE
    } else if keys.contains(KeyCode::KeyS) {
        KeyCode::KeyS
    } else if keys.contains(KeyCode::KeyD) {
        KeyCode::KeyD
    } else {
        KeyCode::KeyF
    }
}

/// The pending half of a two-key diagonal: a movement key pressed alone, and the
/// window in which its partner may still come.
#[derive(Clone, Copy, Debug, PartialEq, Eq, Structural)]
pub struct MovementChord {
    pub first_key: Option<KeyCode>,
    pub timer: Timer,
}

impl MovementChord {
    pub open spec fn wf(&self) -> bool {
        self.timer.wf()
    }

    pub open spec fn idle(&self) -> MovementChord {
        MovementChord { first_key: None, timer: Timer { elapsed: 0, ..self.timer } }
    }

    pub open spec fn armed(&self, k: KeyCode) -> MovementChord {
        MovementChord { first_key: Some(k), timer: Timer { elapsed: 0, ..self.timer } }
    }
}

impl Default for MovementChord {
    fn default() -> (r: MovementChord)
        ensures
            r.first_key is None,
            r.timer.duration == CHORD_WINDOW_NANOS,
            r.timer.elapsed == 0,
            r.wf(),
    {
        MovementChord { first_key: None, timer: Timer::new(CHORD_WINDOW_NANOS) }
    }
}

/// The chord after a tick of `delta` in which `keys` were freshly pressed, and
/// the step to request (none when it is zero). Two movement keys at once
/// resolve at once and leave the chord as it was. Otherwise a pending key's
/// window runs first: once it has run out the pending key resolves alone, and a
/// lone fresh key starts a new wait. While the window is open, a lone fresh key
/// on the other axis makes a diagonal with the pending one; one on the same axis
/// resolves the pending key alone and waits in its place. With nothing pending,
/// a lone fresh key starts to wait.
pub open spec fn chord_step(chord: MovementChord, keys: Seq<KeyCode>, delta: u64) -> (
    MovementChord,
    (int, int, int),
) {
    let n = count_of(keys);
    if n == 2 {
        (chord, sum_of(keys))
    } else {
        match chord.first_key {
            Some(k) => {
                let t = chord.timer.ticked(delta);
                if t.finished_spec() {
                    if n == 1 {
                        (chord.armed(single_of(keys)), key_direction(k))
                    } else {
                        (chord.idle(), key_direction(k))
                    }
                } else if n == 1 {
                    let m = single_of(keys);
                    if is_pair(k, m) {
                        (chord.idle(), add3(key_direction(k), key_direction(m)))
                    } else {
                        (chord.armed(m), key_direction(k))
                    }
                } else {
                    (MovementChord { timer: t, ..chord }, zero3())
                }
            },
            None => if n == 1 {
                (chord.armed(single_of(keys)), zero3())
            } else {
                (chord, zero3())
            },
        }
    }
}

fn contains_key(keys: &Vec<KeyCode>, k: KeyCode) -> (r: bool)
    ensures
        r == keys@.contains(k),
{
    let mut i: usize = 0;
    while i < keys.len()
        invariant
            i <= keys.len(),
            forall|j: int| 0 <= j < i ==> keys@[j] != k,
        decreases keys.len() - i,
    {
        if keys[i] == k {
            return true;
        }
        i = i + 1;
    }
    false
}

fn direction_of(k: KeyCode) -> (r: IVec3)
    ensures
        r@ == key_direction(k),
{
    match k {
        KeyCode::KeyE => IVec3 { x: 0, y: 1, z: 0 },
        KeyCode::KeyD => IVec3 { x: 0, y: -1, z: 0 },
        KeyCode::KeyS => IVec3 { x: -1, y: 0, z: 0 },
        KeyCode::KeyF => IVec3 { x: 1, y: 0, z: 0 },
        _ => IVec3 { x: 0, y: 0, z: 0 },
    }
}

fn add_small(a: IVec3, b: IVec3) -> (r: IVec3)
    requires
        -4 <= a.x <= 4 && -4 <= a.y <= 4 && -4 <= a.z <= 4,
        -4 <= b.x <= 4 && -4 <= b.y <= 4 && -4 <= b.z <= 4,
    ensures
        r@ == add3(a@, b@),
{
    IVec3 { x: a.x + b.x, y: a.y + b.y, z: a.z + b.z }
}

pub open spec fn small(d: (int, int, int)) -> bool {
    -2 <= d.0 <= 2 && -2 <= d.1 <= 2 && -2 <= d.2 <= 2
}

fn sum_keys(has_e: bool, has_s: bool, has_d: bool, has_f: bool) -> (r: IVec3)
    ensures
        r@ == add3(
            add3(
                if has_e { key_direction(KeyCode::KeyE) } else { zero3() },
                if has_s { key_direction(KeyCode::KeyS) } else { zero3() },
            ),
            add3(
                if has_d { key_direction(KeyCode::KeyD) } else { zero3() },
                if has_f { key_direction(KeyCode::KeyF) } else { zero3() },
            ),
        ),
{
    let zero = IVec3 { x: 0, y: 0, z: 0 };
    let e = if has_e { direction_of(KeyCode::KeyE) } else { zero };
    let s = if has_s { direction_of(KeyCode::KeyS) } else { zero };
    let d = if has_d { direction_of(KeyCode::KeyD) } else { zero };
    let f = if has_f { direction_of(KeyCode::KeyF) } else { zero };
    add_small(add_small(e, s), add_small(d, f))
}

impl MovementChord {
    /// Drives the chord through a tick of `delta` nanoseconds in which `keys`
    /// were freshly pressed, and returns the step to request (zero for none).
    pub fn advance(&mut self, keys: &Vec<KeyCode>, delta: u64) -> (r: IVec3)
        requires
            old(self).wf(),
        ensures
            (*final(self), r@) == chord_step(*old(self), keys@, delta),
            final(self).wf(),
            small(r@),
    {
        let has_e = contains_key(keys, KeyCode::KeyE);
        let has_s = contains_key(keys, KeyCode::KeyS);
        let has_d = contains_key(keys, KeyCode::KeyD);
        let has_f = contains_key(keys, KeyCode::KeyF);
        let n: u8 = (if has_e { 1u8 } else { 0u8 }) + (if has_s { 1u8 } else { 0u8 }) + (if has_d {
            1u8
        } else {
            0u8
        }) + (if has_f { 1u8 } else { 0u8 });
        let zero = IVec3 { x: 0, y: 0, z: 0 };
        let single = if has_e {
            KeyCode::KeyE
        } else if has_s {
            KeyCode::KeyS
        } else if has_d {
            KeyCode::KeyD
        } else {
            KeyCode::KeyF
        };
        if n == 2 {
            return sum_keys(has_e, has_s, has_d, has_f);
        }
        match self.first_key {
            Some(k) => {
                self.timer.tick(delta);
                if self.timer.is_finished() {
                    if n == 1 {
                        self.first_key = Some(single);
                    } else {
                        self.first_key = None;
                    }
                    self.timer.reset();
                    direction_of(k)
                } else if n == 1 {
                    let dk = direction_of(k);
                    let dm = direction_of(single);
                    if (dk.x != 0 && dm.y != 0) || (dk.y != 0 && dm.x != 0) {
                        self.first_key = None;
                        self.timer.reset();
                        add_small(dk, dm)
                    } else {
                        self.first_key = Some(single);
                        self.timer.reset();
                        dk
                    }
                } else {
                    zero
                }
            },
            None => {
                if n == 1 {
                    self.first_key = Some(single);
                    self.timer.reset();
                }
                zero
            },
        }
    }
}

/// The movement request of one tick: drives `chord` with the freshly pressed
/// `keys` and, where it resolves a nonzero step and the player exists, the
/// action that moves the player by that step, started at `now`. Without a
/// player nothing happens.
pub fn keyboard_movement(
    chord: &mut MovementChord,
    keys: &Vec<KeyCode>,
    player: Option<Entity>,
    now: u64,
    delta: u64,
) -> (r: Option<Action>)
    requires
        old(chord).wf(),
    ensures
        final(chord).wf(),
        player is None ==> *final(chord) == *old(chord) && r is None,
        player is Some ==> *final(chord) == chord_step(*old(chord), keys@, delta).0,
        r is Some <==> player is Some && chord_step(*old(chord), keys@, delta).1 != zero3(),
        r is Some ==> ({
            let a = r->Some_0;
            &&& a.target_entity == player->Some_0
            &&& a.direction@ == chord_step(*old(chord), keys@, delta).1
            &&& a.time_started == now
            &&& a.timer.elapsed == 0
            &&& a.timer.duration == squared_length(a.direction@) * STEP_NANOS
        }),
{
    match player {
        None => None,
        Some(p) => {
            let d = chord.advance(keys, delta);
            if d.x == 0 && d.y == 0 && d.z == 0 {
                None
            } else {
                proof {
                    assert(squared_length(d@) <= 12) by (nonlinear_arith)
                        requires small(d@);
                }
                Some(make_movement_action(d, p, now))
            }
        },
    }
}

/// Forward and left pressed in the same tick make one diagonal step, the sum
/// of their unit steps, and leave the chord, pending key and timer, untouched.
pub proof fn lemma_forward_left_diagonal(chord: MovementChord, keys: Seq<KeyCode>, delta: u64)
    requires
        keys.contains(KeyCode::KeyE),
        keys.contains(KeyCode::KeyS),
        !keys.contains(KeyCode::KeyD),
        !keys.contains(KeyCode::KeyF),
    ensures
        chord_step(chord, keys, delta).1 == add3(
            key_direction(KeyCode::KeyE),
            key_direction(KeyCode::KeyS),
        ),
        chord_step(chord, keys, delta).1 == (-1int, 1int, 0int),
        chord_step(chord, keys, delta).0 == chord,
{
}

/// Forward and back pressed in the same tick cancel out: no step is requested
/// and the chord is left untouched.
pub proof fn lemma_opposite_keys_cancel(chord: MovementChord, keys: Seq<KeyCode>, delta: u64)
    requires
        keys.contains(KeyCode::KeyE),
        keys.contains(KeyCode::KeyD),
        !keys.contains(KeyCode::KeyS),
        !keys.contains(KeyCode::KeyF),
    ensures
        chord_step(chord, keys, delta).1 == zero3(),
        chord_step(chord, keys, delta).0 == chord,
{
}

} // verus!
