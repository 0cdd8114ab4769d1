use vstd::prelude::*;
use crate::components::{
    CharacterAnimId, CharacterAnimator, CharacterState, Heading, Input, MoveTarget, Position,
    Team, Velocity,
};
use crate::container::{CContainer, EntityId};
use crate::geometry::DefenseCollider;
use crate::observer::{captured, diffed, Observe, ObservedValue, ValueObserver};

verus! {

/// Speed of an input-driven character, in arena units per frame.
pub const PLAYER_SPEED: i32 = 2;

/// An enemy closer than this becomes the move target.
pub const TARGET_RANGE: i64 = 100;

/// Seek velocity is the remaining distance divided by this gain.
pub const SEEK_GAIN: i64 = 50;

// ---------------------------------------------------------------- input

/// -1, 0 or 1 along one axis; the positive button wins when both are held.
pub open spec fn axis(neg: bool, pos: bool) -> int {
    if pos {
        1
    } else if neg {
        -1
    } else {
        0
    }
}

pub open spec fn input_velocity(input: Input) -> Velocity {
    Velocity {
        x: (axis(input.left, input.right) * PLAYER_SPEED) as i32,
        y: (axis(input.up, input.down) * PLAYER_SPEED) as i32,
    }
}

pub open spec fn velocity_from_input_entry(e: EntityId, v: Velocity, inputs: CContainer<Input>) -> Velocity {
    if inputs.has(e) {
        input_velocity(inputs.item(e))
    } else {
        v
    }
}

/// Sets each velocity from the held direction buttons.
pub fn velocity_from_input(velocities: &mut CContainer<Velocity>, inputs: &CContainer<Input>)
    ensures
        final(velocities)@.len() == old(velocities)@.len(),
        forall|i: int|
            0 <= i < old(velocities)@.len() ==> #[trigger] final(velocities)@[i] == (
            old(velocities)@[i].0,
            velocity_from_input_entry(old(velocities)@[i].0, old(velocities)@[i].1, *inputs),
            ),
{
    let n = velocities.len();
    let mut i: usize = 0;
    while i < n
        invariant
            n == old(velocities)@.len(),
            velocities@.len() == n,
            i <= n,
            forall|j: int| i <= j < n ==> velocities@[j] == old(velocities)@[j],
            forall|j: int|
                0 <= j < i ==> #[trigger] velocities@[j] == (
                old(velocities)@[j].0,
                velocity_from_input_entry(old(velocities)@[j].0, old(velocities)@[j].1, *inputs),
                ),
        decreases n - i,
    {
        let e = velocities.entity_at(i);
        if let Some(input) = inputs.get(e) {
            let mut v = Velocity { x: 0, y: 0 };
            if input.left {
                v.x = -PLAYER_SPEED;
            }
            if input.right {
                v.x = PLAYER_SPEED;
            }
            if input.up {
                v.y = -PLAYER_SPEED;
            }
            if input.down {
                v.y = PLAYER_SPEED;
            }
            velocities.set_at(i, v);
        }
        i = i + 1;
    }
}

/// The compass octant of the held buttons, or `prev` when no direction is held.
pub open spec fn input_heading(input: Input, prev: Heading) -> Heading {
    let dx = axis(input.left, input.right);
    let dy = axis(input.up, input.down);
    if dx == 1 && dy == 0 {
        Heading { octant: 0 }
    } else if dx == 1 && dy == 1 {
        Heading { octant: 1 }
    } else if dx == 0 && dy == 1 {
        Heading { octant: 2 }
    } else if dx == -1 && dy == 1 {
        Heading { octant: 3 }
    } else if dx == -1 && dy == 0 {
        Heading { octant: 4 }
    } else if dx == -1 && dy == -1 {
        Heading { octant: 5 }
    } else if dx == 0 && dy == -1 {
        Heading { octant: 6 }
    } else if dx == 1 && dy == -1 {
        Heading { octant: 7 }
    } else {
        prev
    }
}

pub open spec fn heading_from_input_entry(e: EntityId, h: Heading, inputs: CContainer<Input>) -> Heading {
    if inputs.has(e) {
        input_heading(inputs.item(e), h)
    } else {
        h
    }
}

fn heading_of(input: &Input, prev: Heading) -> (r: Heading)
    ensures
        r == input_heading(*input, prev),
{
    let dx: i8 = if input.right {
        1
    } else if input.left {
        -1
    } else {
        0
    };
    let dy: i8 = if input.down {
        1
    } else if input.up {
        -1
    } else {
        0
    };
    let octant: u8 = if dx == 1 && dy == 0 {
        0
    } else if dx == 1 && dy == 1 {
        1
    } else if dx == 0 && dy == 1 {
        2
    } else if dx == -1 && dy == 1 {
        3
    } else if dx == -1 && dy == 0 {
        4
    } else if dx == -1 && dy == -1 {
        5
    } else if dx == 0 && dy == -1 {
        6
    } else if dx == 1 && dy == -1 {
        7
    } else {
        prev.octant
    };
    Heading { octant }
}

/// Turns each heading toward the held direction buttons.
pub fn heading_from_input(headings: &mut CContainer<Heading>, inputs: &CContainer<Input>)
    ensures
        final(headings)@.len() == old(headings)@.len(),
        forall|i: int|
            0 <= i < old(headings)@.len() ==> #[trigger] final(headings)@[i] == (
            old(headings)@[i].0,
            heading_from_input_entry(old(headings)@[i].0, old(headings)@[i].1, *inputs),
            ),
{
    let n = headings.len();
    let mut i: usize = 0;
    while i < n
        invariant
            n == old(headings)@.len(),
            headings@.len() == n,
            i <= n,
            forall|j: int| i <= j < n ==> headings@[j] == old(headings)@[j],
            forall|j: int|
                0 <= j < i ==> #[trigger] headings@[j] == (
                old(headings)@[j].0,
                heading_from_input_entry(old(headings)@[j].0, old(headings)@[j].1, *inputs),
                ),
        decreases n - i,
    {
        let e = headings.entity_at(i);
        if let Some(input) = inputs.get(e) {
            let h = heading_of(input, *headings.item_at(i));
            headings.set_at(i, h);
        }
        i = i + 1;
    }
}

// ---------------------------------------------------------------- observers

pub open spec fn capture_entry<V, C: Observe<V>>(
    e: EntityId,
    o: ValueObserver<V>,
    sources: CContainer<C>,
) -> ValueObserver<V> {
    if sources.has(e) {
        captured(sources.item(e).observed_spec())
    } else {
        o
    }
}

pub open spec fn diff_entry<V, C: Observe<V>>(
    e: EntityId,
    o: ValueObserver<V>,
    sources: CContainer<C>,
) -> ValueObserver<V> {
    if sources.has(e) {
        diffed(o, sources.item(e).observed_spec())
    } else {
        o
    }
}

/// Seeds each observer with the value observed on its entity's component.
pub fn capture_observers<V: ObservedValue, C: Observe<V>>(
    observers: &mut CContainer<ValueObserver<V>>,
    sources: &CContainer<C>,
)
    ensures
        final(observers)@.len() == old(observers)@.len(),
        forall|i: int|
            0 <= i < old(observers)@.len() ==> #[trigger] final(observers)@[i] == (
            old(observers)@[i].0,
            capture_entry(old(observers)@[i].0, old(observers)@[i].1, *sources),
            ),
{
    let n = observers.len();
    let mut i: usize = 0;
    while i < n
        invariant
            n == old(observers)@.len(),
            observers@.len() == n,
            i <= n,
            forall|j: int| i <= j < n ==> observers@[j] == old(observers)@[j],
            forall|j: int|
                0 <= j < i ==> #[trigger] observers@[j] == (
                old(observers)@[j].0,
                capture_entry(old(observers)@[j].0, old(observers)@[j].1, *sources),
                ),
        decreases n - i,
    {
        let e = observers.entity_at(i);
        if let Some(c) = sources.get(e) {
            observers.set_at(i, ValueObserver::new(c.observed()));
        }
        i = i + 1;
    }
}

/// Compares each observer with the value observed on its entity's component.
pub fn diff_observers<V: ObservedValue, C: Observe<V>>(
    observers: &mut CContainer<ValueObserver<V>>,
    sources: &CContainer<C>,
)
    ensures
        final(observers)@.len() == old(observers)@.len(),
        forall|i: int|
            0 <= i < old(observers)@.len() ==> #[trigger] final(observers)@[i] == (
            old(observers)@[i].0,
            diff_entry(old(observers)@[i].0, old(observers)@[i].1, *sources),
            ),
{
    let n = observers.len();
    let mut i: usize = 0;
    while i < n
        invariant
            n == old(observers)@.len(),
            observers@.len() == n,
            i <= n,
            forall|j: int| i <= j < n ==> observers@[j] == old(observers)@[j],
            forall|j: int|
                0 <= j < i ==> #[trigger] observers@[j] == (
                old(observers)@[j].0,
                diff_entry(old(observers)@[j].0, old(observers)@[j].1, *sources),
                ),
        decreases n - i,
    {
        let e = observers.entity_at(i);
        if let Some(c) = sources.get(e) {
            let o = observers.item_at(i);
            let mut next = ValueObserver { value: o.value, changed: o.changed };
            next.diff(c.observed());
            observers.set_at(i, next);
        }
        i = i + 1;
    }
}

// ---------------------------------------------------------------- state machine

/// `Wait` becomes `Attack` when attack is pressed; `Attack` becomes `Wait` on an
/// animation-end edge; nothing else changes.
pub open spec fn next_state(s: CharacterState, attack: bool, anim_edge: bool) -> CharacterState {
    match s {
        CharacterState::Wait => if attack {
            CharacterState::Attack
        } else {
            CharacterState::Wait
        },
        CharacterState::Attack => if anim_edge {
            CharacterState::Wait
        } else {
            CharacterState::Attack
        },
        CharacterState::Damaged => CharacterState::Damaged,
    }
}

pub open spec fn state_entry(
    e: EntityId,
    s: CharacterState,
    inputs: CContainer<Input>,
    anim_observers: CContainer<ValueObserver<bool>>,
) -> CharacterState {
    if inputs.has(e) && anim_observers.has(e) {
        next_state(s, inputs.item(e).attack, anim_observers.item(e).changed)
    } else {
        s
    }
}

/// The only transitions are `Wait` to `Attack` on attack input and `Attack` to
/// `Wait` on an animation-end edge.
pub proof fn lemma_state_transitions(s: CharacterState, attack: bool, anim_edge: bool)
    ensures
        s == CharacterState::Wait && attack ==> next_state(s, attack, anim_edge)
            == CharacterState::Attack,
        s == CharacterState::Attack && anim_edge ==> next_state(s, attack, anim_edge)
            == CharacterState::Wait,
        next_state(s, attack, anim_edge) != s ==> (s == CharacterState::Wait && attack) || (s
            == CharacterState::Attack && anim_edge),
{
}

/// Advances each character's state from its input and animation-end observer.
pub fn update_character_states(
    states: &mut CContainer<CharacterState>,
    inputs: &CContainer<Input>,
    anim_observers: &CContainer<ValueObserver<bool>>,
)
    ensures
        final(states)@.len() == old(states)@.len(),
        forall|i: int|
            0 <= i < old(states)@.len() ==> #[trigger] final(states)@[i] == (
            old(states)@[i].0,
            state_entry(old(states)@[i].0, old(states)@[i].1, *inputs, *anim_observers),
            ),
{
    let n = states.len();
    let mut i: usize = 0;
    while i < n
        invariant
            n == old(states)@.len(),
            states@.len() == n,
            i <= n,
            forall|j: int| i <= j < n ==> states@[j] == old(states)@[j],
            forall|j: int|
                0 <= j < i ==> #[trigger] states@[j] == (
                old(states)@[j].0,
                state_entry(old(states)@[j].0, old(states)@[j].1, *inputs, *anim_observers),
                ),
        decreases n - i,
    {
        let e = states.entity_at(i);
        if let Some(input) = inputs.get(e) {
            if let Some(obs) = anim_observers.get(e) {
                let s = *states.item_at(i);
                let next = match s {
                    CharacterState::Wait => if input.attack {
                        CharacterState::Attack
                    } else {
                        s
                    },
                    CharacterState::Attack => if obs.is_changed() {
                        CharacterState::Wait
                    } else {
                        s
                    },
                    CharacterState::Damaged => s,
                };
                states.set_at(i, next);
            }
        }
        i = i + 1;
    }
}

// ---------------------------------------------------------------- movement

pub open spec fn step_fits(p: Position, v: Velocity) -> bool {
    &&& i32::MIN <= p.x + v.x <= i32::MAX
    &&& i32::MIN <= p.y + v.y <= i32::MAX
}

pub open spec fn stepped(p: Position, v: Velocity) -> Position {
    Position { x: (p.x + v.x) as i32, y: (p.y + v.y) as i32 }
}

pub open spec fn integrate_entry(e: EntityId, p: Position, velocities: CContainer<Velocity>) -> Position {
    if velocities.has(e) {
        stepped(p, velocities.item(e))
    } else {
        p
    }
}

/// Two steps at a constant velocity land where one step at twice that velocity does.
pub proof fn lemma_two_steps(p: Position, v: Velocity)
    requires
        step_fits(p, v),
        step_fits(stepped(p, v), v),
        i32::MIN <= 2 * v.x <= i32::MAX,
        i32::MIN <= 2 * v.y <= i32::MAX,
    ensures
        stepped(stepped(p, v), v) == stepped(
            p,
            Velocity { x: (2 * v.x) as i32, y: (2 * v.y) as i32 },
        ),
{
}

/// Euler step: moves each position by its entity's velocity.
pub fn integrate(positions: &mut CContainer<Position>, velocities: &CContainer<Velocity>)
    requires
        forall|i: int|
            0 <= i < old(positions)@.len() && velocities.has(#[trigger] old(positions)@[i].0)
                ==> step_fits(old(positions)@[i].1, velocities.item(old(positions)@[i].0)),
    ensures
        final(positions)@.len() == old(positions)@.len(),
        forall|i: int|
            0 <= i < old(positions)@.len() ==> #[trigger] final(positions)@[i] == (
            old(positions)@[i].0,
            integrate_entry(old(positions)@[i].0, old(positions)@[i].1, *velocities),
            ),
{
    let n = positions.len();
    let mut i: usize = 0;
    while i < n
        invariant
            n == old(positions)@.len(),
            positions@.len() == n,
            i <= n,
            forall|j: int|
                0 <= j < n && velocities.has(#[trigger] old(positions)@[j].0) ==> step_fits(
                    old(positions)@[j].1,
                    velocities.item(old(positions)@[j].0),
                ),
            forall|j: int| i <= j < n ==> positions@[j] == old(positions)@[j],
            forall|j: int|
                0 <= j < i ==> #[trigger] positions@[j] == (
                old(positions)@[j].0,
                integrate_entry(old(positions)@[j].0, old(positions)@[j].1, *velocities),
                ),
        decreases n - i,
    {
        let e = positions.entity_at(i);
        if let Some(v) = velocities.get(e) {
            let p = *positions.item_at(i);
            positions.set_at(i, Position { x: p.x + v.x, y: p.y + v.y });
        }
        i = i + 1;
    }
}

/// `a / d` rounded toward zero.
pub open spec fn div_toward_zero(a: int, d: int) -> int {
    if a >= 0 {
        a / d
    } else {
        -((-a) / d)
    }
}

pub open spec fn seek(p: Position, t: MoveTarget) -> Velocity {
    Velocity {
        x: div_toward_zero(t.x - p.x, SEEK_GAIN as int) as i32,
        y: div_toward_zero(t.y - p.y, SEEK_GAIN as int) as i32,
    }
}

pub open spec fn seek_entry(
    e: EntityId,
    v: Velocity,
    positions: CContainer<Position>,
    targets: CContainer<MoveTarget>,
) -> Velocity {
    if positions.has(e) && targets.has(e) {
        seek(positions.item(e), targets.item(e))
    } else {
        v
    }
}

fn seek_axis(from: i32, to: i32) -> (r: i32)
    ensures
        r == div_toward_zero(to - from, SEEK_GAIN as int),
{
    let d = to as i64 - from as i64;
    if d >= 0 {
        (d / SEEK_GAIN) as i32
    } else {
        let q = (-d) / SEEK_GAIN;
        -(q as i32)
    }
}

/// Sets each velocity to close the gap to the entity's move target in
/// `SEEK_GAIN` frames.
pub fn seek_velocity(
    velocities: &mut CContainer<Velocity>,
    positions: &CContainer<Position>,
    targets: &CContainer<MoveTarget>,
)
    ensures
        final(velocities)@.len() == old(velocities)@.len(),
        forall|i: int|
            0 <= i < old(velocities)@.len() ==> #[trigger] final(velocities)@[i] == (
            old(velocities)@[i].0,
            seek_entry(old(velocities)@[i].0, old(velocities)@[i].1, *positions, *targets),
            ),
{
    let n = velocities.len();
    let mut i: usize = 0;
    while i < n
        invariant
            n == old(velocities)@.len(),
            velocities@.len() == n,
            i <= n,
            forall|j: int| i <= j < n ==> velocities@[j] == old(velocities)@[j],
            forall|j: int|
                0 <= j < i ==> #[trigger] velocities@[j] == (
                old(velocities)@[j].0,
                seek_entry(old(velocities)@[j].0, old(velocities)@[j].1, *positions, *targets),
                ),
        decreases n - i,
    {
        let e = velocities.entity_at(i);
        if let Some(p) = positions.get(e) {
            if let Some(t) = targets.get(e) {
                let v = Velocity { x: seek_axis(p.x, t.x), y: seek_axis(p.y, t.y) };
                velocities.set_at(i, v);
            }
        }
        i = i + 1;
    }
}

// ---------------------------------------------------------------- targeting

/// `p` is strictly closer than `TARGET_RANGE` to `me`.
pub open spec fn within_range(p: Position, me: Position) -> bool {
    (p.x - me.x) * (p.x - me.x) + (p.y - me.y) * (p.y - me.y) < TARGET_RANGE * TARGET_RANGE
}

/// The move target after the first `n` team entries have been scanned: every
/// enemy with a position overwrites it, with its own position when within
/// range and with `me` otherwise.
pub open spec fn scan_target(
    teams: Seq<(EntityId, Team)>,
    positions: CContainer<Position>,
    my_team: Team,
    me: Position,
    init: MoveTarget,
    n: int,
) -> MoveTarget
    decreases n,
{
    if n <= 0 {
        init
    } else {
        let prev = scan_target(teams, positions, my_team, me, init, n - 1);
        let f = teams[n - 1].0;
        if teams[n - 1].1.id != my_team.id && positions.has(f) {
            let p = positions.item(f);
            if within_range(p, me) {
                MoveTarget { x: p.x, y: p.y }
            } else {
                MoveTarget { x: me.x, y: me.y }
            }
        } else {
            prev
        }
    }
}

pub open spec fn retarget_entry(
    e: EntityId,
    t: MoveTarget,
    teams: CContainer<Team>,
    positions: CContainer<Position>,
) -> MoveTarget {
    if teams.has(e) && positions.has(e) {
        scan_target(teams@, positions, teams.item(e), positions.item(e), t, teams@.len() as int)
    } else {
        t
    }
}

fn in_range(p: &Position, me: &Position) -> (r: bool)
    ensures
        r == within_range(*p, *me),
{
    let dx = p.x as i128 - me.x as i128;
    let dy = p.y as i128 - me.y as i128;
    proof {
        assert(dx * dx <= 0x1_0000_0000_0000_0000) by (nonlinear_arith)
            requires
                -0x1_0000_0000 <= dx <= 0x1_0000_0000,
        ;
        assert(dy * dy <= 0x1_0000_0000_0000_0000) by (nonlinear_arith)
            requires
                -0x1_0000_0000 <= dy <= 0x1_0000_0000,
        ;
        assert(0 <= dx * dx) by (nonlinear_arith);
        assert(0 <= dy * dy) by (nonlinear_arith);
    }
    let range = TARGET_RANGE as i128;
    assert(range == 100);
    dx * dx + dy * dy < range * range
}

fn scan_enemies(
    teams: &CContainer<Team>,
    positions: &CContainer<Position>,
    my_team: Team,
    me: Position,
    init: MoveTarget,
) -> (r: MoveTarget)
    ensures
        r == scan_target(teams@, *positions, my_team, me, init, teams@.len() as int),
{
    let n = teams.len();
    let mut target = init;
    let mut k: usize = 0;
    while k < n
        invariant
            n == teams@.len(),
            k <= n,
            target == scan_target(teams@, *positions, my_team, me, init, k as int),
        decreases n - k,
    {
        let f = teams.entity_at(k);
        if teams.item_at(k).team_id() != my_team.team_id() {
            if let Some(p) = positions.get(f) {
                if in_range(p, &me) {
                    target = MoveTarget { x: p.x, y: p.y };
                } else {
                    target = MoveTarget { x: me.x, y: me.y };
                }
            }
        }
        k = k + 1;
    }
    target
}

/// Points each move target at a nearby enemy, scanning every team entry in
/// order; the last enemy scanned decides (see `scan_target`).
pub fn retarget(
    move_targets: &mut CContainer<MoveTarget>,
    teams: &CContainer<Team>,
    positions: &CContainer<Position>,
)
    ensures
        final(move_targets)@.len() == old(move_targets)@.len(),
        forall|i: int|
            0 <= i < old(move_targets)@.len() ==> #[trigger] final(move_targets)@[i] == (
            old(move_targets)@[i].0,
            retarget_entry(old(move_targets)@[i].0, old(move_targets)@[i].1, *teams, *positions),
            ),
{
    let n = move_targets.len();
    let mut i: usize = 0;
    while i < n
        invariant
            n == old(move_targets)@.len(),
            move_targets@.len() == n,
            i <= n,
            forall|j: int| i <= j < n ==> move_targets@[j] == old(move_targets)@[j],
            forall|j: int|
                0 <= j < i ==> #[trigger] move_targets@[j] == (
                old(move_targets)@[j].0,
                retarget_entry(old(move_targets)@[j].0, old(move_targets)@[j].1, *teams, *positions),
                ),
        decreases n - i,
    {
        let e = move_targets.entity_at(i);
        if let Some(my_team) = teams.get(e) {
            if let Some(me) = positions.get(e) {
                let t = scan_enemies(teams, positions, *my_team, *me, *move_targets.item_at(i));
                move_targets.set_at(i, t);
            }
        }
        i = i + 1;
    }
}

// ---------------------------------------------------------------- animation

pub open spec fn anim_of_state(s: CharacterState) -> CharacterAnimId {
    match s {
        CharacterState::Wait => CharacterAnimId::Wait,
        CharacterState::Attack => CharacterAnimId::Attack,
        CharacterState::Damaged => CharacterAnimId::Damaged,
    }
}

pub open spec fn select_entry(
    e: EntityId,
    a: CharacterAnimator,
    state_observers: CContainer<ValueObserver<CharacterState>>,
) -> CharacterAnimator {
    if state_observers.has(e) && state_observers.item(e).changed {
        CharacterAnimator::played(anim_of_state(state_observers.item(e).value))
    } else {
        a
    }
}

/// Starts the clip of the new state on each character whose state changed.
pub fn select_animation(
    animators: &mut CContainer<CharacterAnimator>,
    state_observers: &CContainer<ValueObserver<CharacterState>>,
)
    ensures
        final(animators)@.len() == old(animators)@.len(),
        forall|i: int|
            0 <= i < old(animators)@.len() ==> #[trigger] final(animators)@[i] == (
            old(animators)@[i].0,
            select_entry(old(animators)@[i].0, old(animators)@[i].1, *state_observers),
            ),
{
    let n = animators.len();
    let mut i: usize = 0;
    while i < n
        invariant
            n == old(animators)@.len(),
            animators@.len() == n,
            i <= n,
            forall|j: int| i <= j < n ==> animators@[j] == old(animators)@[j],
            forall|j: int|
                0 <= j < i ==> #[trigger] animators@[j] == (
                old(animators)@[j].0,
                select_entry(old(animators)@[j].0, old(animators)@[j].1, *state_observers),
                ),
        decreases n - i,
    {
        let e = animators.entity_at(i);
        if let Some(obs) = state_observers.get(e) {
            if obs.is_changed() {
                let id = match obs.value() {
                    CharacterState::Wait => CharacterAnimId::Wait,
                    CharacterState::Attack => CharacterAnimId::Attack,
                    CharacterState::Damaged => CharacterAnimId::Damaged,
                };
                let mut a = *animators.item_at(i);
                a.play(id);
                animators.set_at(i, a);
            }
        }
        i = i + 1;
    }
}

/// One clip's rule: when `clip` has ended, go back to `Wait`; then, when
/// `trigger` holds and `clip` is not playing, start it.
pub open spec fn clip_rule(a: CharacterAnimator, clip: CharacterAnimId, trigger: bool) -> CharacterAnimator {
    let ended = if a.playing == Some(clip) && a.at_end {
        CharacterAnimator::played(CharacterAnimId::Wait)
    } else {
        a
    };
    if trigger && ended.playing != Some(clip) {
        CharacterAnimator::played(clip)
    } else {
        ended
    }
}

fn apply_clip_rule(a: CharacterAnimator, clip: CharacterAnimId, trigger: bool) -> (r: CharacterAnimator)
    ensures
        r == clip_rule(a, clip, trigger),
{
    let mut a = a;
    if a.playing_id() == Some(clip) && a.is_end() {
        a.play(CharacterAnimId::Wait);
    }
    if trigger && a.playing_id() != Some(clip) {
        a.play(clip);
    }
    a
}

pub open spec fn attack_entry(e: EntityId, a: CharacterAnimator, inputs: CContainer<Input>) -> CharacterAnimator {
    if inputs.has(e) {
        clip_rule(a, CharacterAnimId::Attack, inputs.item(e).attack)
    } else {
        a
    }
}

pub open spec fn damage_entry(
    e: EntityId,
    a: CharacterAnimator,
    defenses: CContainer<DefenseCollider>,
) -> CharacterAnimator {
    if defenses.has(e) {
        clip_rule(a, CharacterAnimId::Damaged, defenses.item(e).hit)
    } else {
        a
    }
}

/// Ends a finished attack clip, then starts one on attack input.
pub fn attack_animation(animators: &mut CContainer<CharacterAnimator>, inputs: &CContainer<Input>)
    ensures
        final(animators)@.len() == old(animators)@.len(),
        forall|i: int|
            0 <= i < old(animators)@.len() ==> #[trigger] final(animators)@[i] == (
            old(animators)@[i].0,
            attack_entry(old(animators)@[i].0, old(animators)@[i].1, *inputs),
            ),
{
    let n = animators.len();
    let mut i: usize = 0;
    while i < n
        invariant
            n == old(animators)@.len(),
            animators@.len() == n,
            i <= n,
            forall|j: int| i <= j < n ==> animators@[j] == old(animators)@[j],
            forall|j: int|
                0 <= j < i ==> #[trigger] animators@[j] == (
                old(animators)@[j].0,
                attack_entry(old(animators)@[j].0, old(animators)@[j].1, *inputs),
                ),
        decreases n - i,
    {
        let e = animators.entity_at(i);
        if let Some(input) = inputs.get(e) {
            let a = apply_clip_rule(*animators.item_at(i), CharacterAnimId::Attack, input.attack);
            animators.set_at(i, a);
        }
        i = i + 1;
    }
}

/// Ends a finished damaged clip, then starts one where the hurtbox was hit.
pub fn damage_animation(
    animators: &mut CContainer<CharacterAnimator>,
    defenses: &CContainer<DefenseCollider>,
)
    ensures
        final(animators)@.len() == old(animators)@.len(),
        forall|i: int|
            0 <= i < old(animators)@.len() ==> #[trigger] final(animators)@[i] == (
            old(animators)@[i].0,
            damage_entry(old(animators)@[i].0, old(animators)@[i].1, *defenses),
            ),
{
    let n = animators.len();
    let mut i: usize = 0;
    while i < n
        invariant
            n == old(animators)@.len(),
            animators@.len() == n,
            i <= n,
            forall|j: int| i <= j < n ==> animators@[j] == old(animators)@[j],
            forall|j: int|
                0 <= j < i ==> #[trigger] animators@[j] == (
                old(animators)@[j].0,
                damage_entry(old(animators)@[j].0, old(animators)@[j].1, *defenses),
                ),
        decreases n - i,
    {
        let e = animators.entity_at(i);
        if let Some(d) = defenses.get(e) {
            let a = apply_clip_rule(*animators.item_at(i), CharacterAnimId::Damaged, d.hit);
            animators.set_at(i, a);
        }
        i = i + 1;
    }
}

} // verus!
