use vstd::prelude::*;
use crate::grid::{
    IVec3, UVec2, MapCoordinates, can_displace, displaced, has_index, index_of, squared_length,
    zero3,
};
use crate::timer::Timer;
use bevy::platform::collections::HashSet;
use bevy::platform::hash::FixedHasher;

verus! {

#[verifier::external_type_specification]
#[verifier::external_body]
#[verifier::reject_recursive_types(T)]
#[verifier::reject_recursive_types(S)]
pub struct ExHashSet<T, S>(HashSet<T, S>);

#[verifier::external_type_specification]
#[verifier::external_body]
pub struct ExFixedHasher(FixedHasher);

/// The values that a set of entity slots holds.
pub uninterp spec fn slot_set(s: HashSet<usize>) -> Set<usize>;

/// Relies on bevy_platform's `HashSet::new`: an empty set.
#[verifier::external_body]
fn new_slot_set() -> (r: HashSet<usize>)
    ensures
        slot_set(r) == Set::<usize>::empty(),
{
    HashSet::new()
}

/// Relies on bevy_platform's `HashSet::insert`: the value is added, and the
/// result says whether it was absent before.
#[verifier::external_body]
fn insert_slot(s: &mut HashSet<usize>, v: usize) -> (r: bool)
    ensures
        r == !slot_set(*old(s)).contains(v),
        slot_set(*final(s)) == slot_set(*old(s)).insert(v),
{
    s.insert(v)
}

/// Relies on bevy_platform's `HashSet::contains`: whether the set holds the value.
#[verifier::external_body]
fn contains_slot(s: &HashSet<usize>, v: usize) -> (r: bool)
    ensures
        r == slot_set(*s).contains(v),
{
    s.contains(&v)
}

/// A non-owning handle to an entity: its slot in the table of positions.
#[derive(Clone, Copy, Debug, PartialEq, Eq, Structural)]
pub struct Entity {
    pub index: usize,
}

/// Nanoseconds that a step of squared length one takes.
pub const STEP_NANOS: u64 = 300_000_000;

/// A timed move of one entity by one displacement.
#[derive(Clone, Copy, Debug, PartialEq, Eq, Structural)]
pub struct Action {
    pub target_entity: Entity,
    pub direction: IVec3,
    pub time_started: u64,
    pub timer: Timer,
}

/// What became of one action during a tick.
#[derive(Clone, Copy, Debug, PartialEq, Eq, Structural)]
pub enum ActionReport {
    /// The target entity no longer exists; the action was dropped.
    Invalid { action: Action },
    /// The timer had run out; the displacement was committed and the action dropped.
    Completed { entity: Entity, direction: IVec3, time_started: u64 },
    /// Another action already moved this entity during the tick; this one was dropped.
    Duplicate { action: Action },
    /// The entity is on its way from one cell to the next; it has covered
    /// `elapsed / duration` of the distance.
    Moving { entity: Entity, from: UVec2, to: UVec2, elapsed: u64, duration: u64 },
}

/// The position stored for `e`, if the entity exists.
pub open spec fn lookup(positions: Seq<Option<MapCoordinates>>, e: Entity) -> Option<MapCoordinates> {
    if e.index < positions.len() {
        positions[e.index as int]
    } else {
        None
    }
}

/// `c` moved by the step `d`.
pub open spec fn moved(c: MapCoordinates, d: IVec3) -> MapCoordinates {
    let o = displaced(c.origin@, d@);
    MapCoordinates { origin: IVec3 { x: o.0 as i32, y: o.1 as i32, z: o.2 as i32 }, map_size: c.map_size }
}

pub open spec fn cell(i: (int, int)) -> UVec2 {
    UVec2 { x: i.0 as u32, y: i.1 as u32 }
}

/// Where a tick stands after some of the actions were handled: the actions that
/// keep running, the positions, the entities that an action already moved, and
/// the reports so far.
pub struct TickState {
    pub kept: Seq<Action>,
    pub positions: Seq<Option<MapCoordinates>>,
    pub seen: Set<usize>,
    pub reports: Seq<ActionReport>,
}

pub open spec fn tick_start(positions: Seq<Option<MapCoordinates>>) -> TickState {
    TickState { kept: Seq::empty(), positions, seen: Set::empty(), reports: Seq::empty() }
}

/// Handles the action `a` in the tick state `s`, the tick lasting `delta`.
pub open spec fn step_one(s: TickState, a: Action, delta: u64) -> TickState {
    match lookup(s.positions, a.target_entity) {
        None => TickState { reports: s.reports.push(ActionReport::Invalid { action: a }), ..s },
        Some(c) => if a.timer.finished_spec() {
            TickState {
                positions: s.positions.update(a.target_entity.index as int, Some(moved(c, a.direction))),
                reports: s.reports.push(
                    ActionReport::Completed {
                        entity: a.target_entity,
                        direction: a.direction,
                        time_started: a.time_started,
                    },
                ),
                ..s
            }
        } else if s.seen.contains(a.target_entity.index) {
            TickState { reports: s.reports.push(ActionReport::Duplicate { action: a }), ..s }
        } else {
            let t = a.timer.ticked(delta);
            TickState {
                kept: s.kept.push(Action { timer: t, ..a }),
                positions: s.positions,
                seen: s.seen.insert(a.target_entity.index),
                reports: s.reports.push(
                    ActionReport::Moving {
                        entity: a.target_entity,
                        from: cell(index_of(c.origin@, c.map_size@)),
                        to: cell(index_of(displaced(c.origin@, a.direction@), c.map_size@)),
                        elapsed: t.elapsed,
                        duration: t.duration,
                    },
                ),
            }
        },
    }
}

/// Handling `a` in `s` stays within 32-bit arithmetic and the map's cells.
pub open spec fn step_ok(s: TickState, a: Action) -> bool {
    match lookup(s.positions, a.target_entity) {
        None => true,
        Some(c) => if a.timer.finished_spec() {
            can_displace(c.origin@, a.direction@)
        } else if s.seen.contains(a.target_entity.index) {
            true
        } else {
            has_index(c.origin@, c.map_size@) && can_displace(c.origin@, a.direction@)
                && has_index(displaced(c.origin@, a.direction@), c.map_size@)
        },
    }
}

/// The tick state after handling `actions` in order from `s`.
pub open spec fn run(s: TickState, actions: Seq<Action>, delta: u64) -> TickState
    decreases actions.len(),
{
    if actions.len() == 0 {
        s
    } else {
        step_one(run(s, actions.drop_last(), delta), actions.last(), delta)
    }
}

/// Every action of `actions` is handled without leaving 32-bit arithmetic or the map.
pub open spec fn run_ok(s: TickState, actions: Seq<Action>, delta: u64) -> bool {
    forall|i: int| 0 <= i < actions.len() ==> step_ok(#[trigger] run(s, actions.take(i), delta), actions[i])
}

pub open spec fn actions_wf(actions: Seq<Action>) -> bool {
    forall|i: int| 0 <= i < actions.len() ==> (#[trigger] actions[i]).timer.wf()
}

/// A move of `entity` by `direction`, started at `time_started`, that takes
/// 0.3 s for each unit of squared length.
pub fn make_movement_action(direction: IVec3, entity: Entity, time_started: u64) -> (r: Action)
    requires
        direction@ != zero3(),
        squared_length(direction@) <= i32::MAX,
    ensures
        r.target_entity == entity,
        r.direction == direction,
        r.time_started == time_started,
        r.timer.duration == squared_length(direction@) * STEP_NANOS,
        r.timer.elapsed == 0,
        r.timer.wf(),
{
    let ls = direction.length_squared();
    proof {
        assert(squared_length(direction@) > 0) by (nonlinear_arith)
            requires direction@ != zero3(), squared_length(direction@) == direction.x * direction.x + direction.y * direction.y + direction.z * direction.z;
        assert(0 < ls * STEP_NANOS <= i32::MAX * STEP_NANOS) by (nonlinear_arith)
            requires 0 < ls <= i32::MAX;
    }
    Action {
        target_entity: entity,
        direction,
        time_started,
        timer: Timer::new(ls as u64 * STEP_NANOS),
    }
}

pub open spec fn state_of(
    kept: Seq<Action>,
    positions: Seq<Option<MapCoordinates>>,
    seen: Set<usize>,
    reports: Seq<ActionReport>,
) -> TickState {
    TickState { kept, positions, seen, reports }
}

fn lookup_position(positions: &Vec<Option<MapCoordinates>>, e: Entity) -> (r: Option<MapCoordinates>)
    ensures
        r == lookup(positions@, e),
{
    if e.index < positions.len() {
        positions[e.index]
    } else {
        None
    }
}

/// Whether the action `a` can be handled in the given tick state without
/// leaving 32-bit arithmetic or the map.
fn step_allowed(
    a: Action,
    kept: &Vec<Action>,
    positions: &Vec<Option<MapCoordinates>>,
    seen: &HashSet<usize>,
    reports: &Vec<ActionReport>,
) -> (r: bool)
    ensures
        r == step_ok(state_of(kept@, positions@, slot_set(*seen), reports@), a),
{
    match lookup_position(positions, a.target_entity) {
        None => true,
        Some(c) => {
            if a.timer.is_finished() {
                c.can_add_direction(a.direction)
            } else if contains_slot(seen, a.target_entity.index) {
                true
            } else if !c.has_cell() || !c.can_add_direction(a.direction) {
                false
            } else {
                let mut dest = c;
                dest.add_direction(a.direction).has_cell()
            }
        },
    }
}

/// Handles the action `a` in the tick state held by the four vectors.
fn handle_action(
    a: Action,
    kept: &mut Vec<Action>,
    positions: &mut Vec<Option<MapCoordinates>>,
    seen: &mut HashSet<usize>,
    reports: &mut Vec<ActionReport>,
    delta: u64,
)
    requires
        a.timer.wf(),
        step_ok(state_of(old(kept)@, old(positions)@, slot_set(*old(seen)), old(reports)@), a),
    ensures
        state_of(final(kept)@, final(positions)@, slot_set(*final(seen)), final(reports)@) == step_one(
            state_of(old(kept)@, old(positions)@, slot_set(*old(seen)), old(reports)@),
            a,
            delta,
        ),
{
    let e = a.target_entity;
    match lookup_position(positions, e) {
        None => {
            reports.push(ActionReport::Invalid { action: a });
        },
        Some(c) => {
            if a.timer.is_finished() {
                let mut moved_c = c;
                moved_c.add_direction(a.direction);
                positions.set(e.index, Some(moved_c));
                reports.push(
                    ActionReport::Completed {
                        entity: e,
                        direction: a.direction,
                        time_started: a.time_started,
                    },
                );
            } else if !insert_slot(seen, e.index) {
                proof {
                    assert(slot_set(*seen) =~= slot_set(*old(seen)));
                }
                reports.push(ActionReport::Duplicate { action: a });
            } else {
                let mut t = a.timer;
                t.tick(delta);
                let from = c.as_uvec2();
                let mut dest = c;
                let to = dest.add_direction(a.direction).as_uvec2();
                kept.push(Action { timer: t, ..a });
                reports.push(
                    ActionReport::Moving {
                        entity: e,
                        from,
                        to,
                        elapsed: t.elapsed,
                        duration: t.duration,
                    },
                );
            }
        },
    }
}

/// Runs one tick of length `delta` over the actions in flight, in order. An
/// action whose entity is gone is dropped; one whose timer ran out commits its
/// step to the entity's position and is dropped; one for an entity that an
/// earlier action already moved during this tick is dropped; any other advances
/// its timer and reports where its entity is drawn. Only the last kind keeps
/// running. Each action gives one report, in the order of the actions.
pub fn consume_action(
    actions: &mut Vec<Action>,
    positions: &mut Vec<Option<MapCoordinates>>,
    delta: u64,
) -> (reports: Vec<ActionReport>)
    requires
        actions_wf(old(actions)@),
        run_ok(tick_start(old(positions)@), old(actions)@, delta),
    ensures
        final(actions)@ == run(tick_start(old(positions)@), old(actions)@, delta).kept,
        final(positions)@ == run(tick_start(old(positions)@), old(actions)@, delta).positions,
        reports@ == run(tick_start(old(positions)@), old(actions)@, delta).reports,
        reports@.len() == old(actions)@.len(),
        actions_wf(final(actions)@),
{
    let ghost start = tick_start(positions@);
    let ghost all = actions@;
    let mut kept: Vec<Action> = Vec::new();
    let mut seen = new_slot_set();
    let mut reports: Vec<ActionReport> = Vec::new();
    let n = actions.len();
    let mut i: usize = 0;
    while i < n
        invariant
            n == all.len(),
            actions@ == all,
            i <= n,
            actions_wf(all),
            run_ok(start, all, delta),
            run(start, all.take(i as int), delta) == state_of(kept@, positions@, slot_set(seen), reports@),
            actions_wf(kept@),
        decreases n - i,
    {
        proof {
            assert(all.take(i + 1).drop_last() =~= all.take(i as int));
            assert(step_ok(run(start, all.take(i as int), delta), all[i as int]));
        }
        handle_action(actions[i], &mut kept, positions, &mut seen, &mut reports, delta);
        i = i + 1;
    }
    proof {
        assert(all.take(n as int) =~= all);
        lemma_report_per_action(start.positions, all, delta);
    }
    *actions = kept;
    reports
}

/// Whether `consume_action` may run on these actions and positions: every
/// action's timer is well formed and no step of the tick leaves 32-bit
/// coordinates or the map.
pub fn tick_stays_on_map(
    actions: &Vec<Action>,
    positions: &Vec<Option<MapCoordinates>>,
    delta: u64,
) -> (r: bool)
    ensures
        r == (actions_wf(actions@) && run_ok(tick_start(positions@), actions@, delta)),
{
    let n = actions.len();
    let mut w: usize = 0;
    while w < n
        invariant
            n == actions.len(),
            w <= n,
            forall|j: int| 0 <= j < w ==> (#[trigger] actions@[j]).timer.wf(),
        decreases n - w,
    {
        if !(0 < actions[w].timer.duration && actions[w].timer.elapsed <= actions[w].timer.duration) {
            return false;
        }
        w = w + 1;
    }
    let ghost start = tick_start(positions@);
    let ghost all = actions@;
    let mut work: Vec<Option<MapCoordinates>> = Vec::new();
    let mut k: usize = 0;
    while k < positions.len()
        invariant
            k <= positions.len(),
            work@ == positions@.take(k as int),
        decreases positions.len() - k,
    {
        work.push(positions[k]);
        k = k + 1;
        proof {
            assert(work@ =~= positions@.take(k as int));
        }
    }
    proof {
        assert(work@ =~= positions@);
    }
    let mut kept: Vec<Action> = Vec::new();
    let mut seen = new_slot_set();
    let mut reports: Vec<ActionReport> = Vec::new();
    let mut i: usize = 0;
    while i < n
        invariant
            n == all.len(),
            actions@ == all,
            i <= n,
            actions_wf(all),
            start == tick_start(positions@),
            run(start, all.take(i as int), delta) == state_of(kept@, work@, slot_set(seen), reports@),
            forall|j: int| 0 <= j < i ==> step_ok(#[trigger] run(start, all.take(j), delta), all[j]),
        decreases n - i,
    {
        proof {
            assert(all.take(i + 1).drop_last() =~= all.take(i as int));
        }
        if !step_allowed(actions[i], &kept, &work, &seen, &reports) {
            proof {
                assert(!step_ok(run(start, all.take(i as int), delta), all[i as int]));
            }
            return false;
        }
        handle_action(actions[i], &mut kept, &mut work, &mut seen, &mut reports, delta);
        i = i + 1;
    }
    true
}

/// A tick gives one report for each action, in order.
proof fn lemma_report_per_action(
    positions: Seq<Option<MapCoordinates>>,
    actions: Seq<Action>,
    delta: u64,
)
    ensures
        run(tick_start(positions), actions, delta).reports.len() == actions.len(),
    decreases actions.len(),
{
    if actions.len() > 0 {
        lemma_report_per_action(positions, actions.drop_last(), delta);
    }
}

/// During a tick the entities already moved are exactly the targets of the
/// actions kept so far.
proof fn lemma_seen_is_kept_targets(
    positions: Seq<Option<MapCoordinates>>,
    actions: Seq<Action>,
    delta: u64,
)
    ensures
        forall|x: usize|
            run(tick_start(positions), actions, delta).seen.contains(x) <==> exists|i: int|
                0 <= i < run(tick_start(positions), actions, delta).kept.len() && (#[trigger] run(
                    tick_start(positions),
                    actions,
                    delta,
                ).kept[i]).target_entity.index == x,
    decreases actions.len(),
{
    if actions.len() > 0 {
        lemma_seen_is_kept_targets(positions, actions.drop_last(), delta);
        let s = run(tick_start(positions), actions.drop_last(), delta);
        let t = run(tick_start(positions), actions, delta);
        if t.kept.len() > s.kept.len() {
            assert forall|x: usize| t.seen.contains(x) <==> exists|i: int|
                0 <= i < t.kept.len() && (#[trigger] t.kept[i]).target_entity.index == x by {
                if t.seen.contains(x) && x != actions.last().target_entity.index {
                    let i = choose|i: int| 0 <= i < s.kept.len() && (#[trigger] s.kept[i]).target_entity.index == x;
                    assert(t.kept[i] == s.kept[i]);
                }
                if x == actions.last().target_entity.index {
                    assert(t.kept[s.kept.len() as int].target_entity.index == x);
                }
                if exists|i: int| 0 <= i < t.kept.len() && (#[trigger] t.kept[i]).target_entity.index == x {
                    let i = choose|i: int| 0 <= i < t.kept.len() && (#[trigger] t.kept[i]).target_entity.index == x;
                    if i < s.kept.len() {
                        assert(s.kept[i] == t.kept[i]);
                    }
                }
            }
        }
    }
}

/// After a tick, no two actions that keep running move the same entity.
pub proof fn lemma_one_action_per_entity(
    positions: Seq<Option<MapCoordinates>>,
    actions: Seq<Action>,
    delta: u64,
)
    ensures
        forall|i: int, j: int|
            0 <= i < j < run(tick_start(positions), actions, delta).kept.len() ==> (#[trigger] run(
                tick_start(positions),
                actions,
                delta,
            ).kept[i]).target_entity != (#[trigger] run(tick_start(positions), actions, delta).kept[j]).target_entity,
    decreases actions.len(),
{
    if actions.len() > 0 {
        lemma_one_action_per_entity(positions, actions.drop_last(), delta);
        lemma_seen_is_kept_targets(positions, actions.drop_last(), delta);
        let s = run(tick_start(positions), actions.drop_last(), delta);
        let t = run(tick_start(positions), actions, delta);
        assert forall|i: int, j: int| 0 <= i < j < t.kept.len() implies t.kept[i].target_entity
            != t.kept[j].target_entity by {
            if t.kept.len() > s.kept.len() && j == s.kept.len() {
                assert(s.kept[i] == t.kept[i]);
                if t.kept[i].target_entity == t.kept[j].target_entity {
                    assert(s.seen.contains(t.kept[j].target_entity.index));
                }
            } else {
                assert(s.kept[i] == t.kept[i]);
                assert(s.kept[j] == t.kept[j]);
            }
        }
    }
}

/// Two fresh actions for one existing entity, handled in the same tick: the
/// first keeps running and the second is dropped as a duplicate.
pub proof fn lemma_duplicate_superseded(
    positions: Seq<Option<MapCoordinates>>,
    first: Action,
    second: Action,
    delta: u64,
)
    requires
        first.target_entity == second.target_entity,
        lookup(positions, first.target_entity) is Some,
        first.timer.wf(),
        first.timer.elapsed == 0,
        second.timer.wf(),
        second.timer.elapsed == 0,
    ensures
        run(tick_start(positions), seq![first, second], delta).kept == seq![
            Action { timer: first.timer.ticked(delta), ..first },
        ],
        run(tick_start(positions), seq![first, second], delta).positions == positions,
        run(tick_start(positions), seq![first, second], delta).reports[1]
            == (ActionReport::Duplicate { action: second }),
{
    let both = seq![first, second];
    assert(both.drop_last() =~= seq![first]);
    assert(seq![first].drop_last() =~= Seq::<Action>::empty());
    assert(run(tick_start(positions), seq![first].drop_last(), delta) == tick_start(positions));
    assert(!tick_start(positions).seen.contains(first.target_entity.index));
    let s1 = run(tick_start(positions), seq![first], delta);
    assert(s1 == step_one(tick_start(positions), first, delta));
    assert(s1.seen.contains(second.target_entity.index));
    assert(s1.kept =~= seq![Action { timer: first.timer.ticked(delta), ..first }]);
}

/// An entity that is gone at the start of a tick stays gone through it.
proof fn lemma_missing_stays_missing(
    positions: Seq<Option<MapCoordinates>>,
    actions: Seq<Action>,
    e: Entity,
    delta: u64,
)
    requires
        lookup(positions, e) is None,
    ensures
        lookup(run(tick_start(positions), actions, delta).positions, e) is None,
    decreases actions.len(),
{
    if actions.len() > 0 {
        lemma_missing_stays_missing(positions, actions.drop_last(), e, delta);
    }
}

/// An action whose entity was removed before the tick is dropped by it, with
/// no position changed and no action kept, wherever it stands in the tick.
pub proof fn lemma_missing_target_dropped(
    positions: Seq<Option<MapCoordinates>>,
    before: Seq<Action>,
    a: Action,
    delta: u64,
)
    requires
        lookup(positions, a.target_entity) is None,
    ensures
        ({
            let s = run(tick_start(positions), before, delta);
            let t = run(tick_start(positions), before.push(a), delta);
            &&& t.positions == s.positions
            &&& t.kept == s.kept
            &&& t.reports == s.reports.push(ActionReport::Invalid { action: a })
        }),
{
    lemma_missing_stays_missing(positions, before, a.target_entity, delta);
    assert(before.push(a).drop_last() =~= before);
}

/// An entity that is gone at the start of a tick is the target of no action
/// kept after it, wherever its actions stood in the list.
pub proof fn lemma_missing_target_never_kept(
    positions: Seq<Option<MapCoordinates>>,
    actions: Seq<Action>,
    e: Entity,
    delta: u64,
)
    requires
        lookup(positions, e) is None,
    ensures
        forall|i: int|
            0 <= i < run(tick_start(positions), actions, delta).kept.len() ==> (#[trigger] run(
                tick_start(positions),
                actions,
                delta,
            ).kept[i]).target_entity != e,
    decreases actions.len(),
{
    if actions.len() > 0 {
        lemma_missing_target_never_kept(positions, actions.drop_last(), e, delta);
        lemma_missing_stays_missing(positions, actions.drop_last(), e, delta);
        let s = run(tick_start(positions), actions.drop_last(), delta);
        let t = run(tick_start(positions), actions, delta);
        assert forall|i: int| 0 <= i < t.kept.len() implies t.kept[i].target_entity != e by {
            if i < s.kept.len() {
                assert(t.kept[i] == s.kept[i]);
            }
        }
    }
}

} // verus!
