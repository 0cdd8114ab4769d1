use arena_ecs::container::CContainer;
use arena_ecs::components::{CharacterAnimId, CharacterAnimator, CharacterState, Heading, Input, Position, Team, Velocity, MoveTarget};
use arena_ecs::geometry::DefenseCollider;
use arena_ecs::observer::ValueObserver;
use arena_ecs::systems::{
    attack_animation, capture_observers, diff_observers, heading_from_input, integrate,
    retarget, seek_velocity, select_animation, update_character_states, velocity_from_input,
    damage_animation,
};

fn no_input() -> Input {
    Input { left: false, right: false, up: false, down: false, attack: false }
}

fn ids<T>(c: &CContainer<T>) -> Vec<u64> {
    let mut r = Vec::new();
    for i in 0..c.len() {
        r.push(c.entity_at(i));
    }
    r
}

#[test]
fn insert_keeps_ascending_order_and_replaces() {
    let mut c: CContainer<u32> = CContainer::new();
    assert_eq!(c.insert(5, 50), None);
    assert_eq!(c.insert(1, 10), None);
    assert_eq!(c.insert(3, 30), None);
    assert_eq!(ids(&c), vec![1, 3, 5]);
    assert_eq!(c.insert(3, 33), Some(30));
    assert_eq!(ids(&c), vec![1, 3, 5]);
    assert_eq!(c.get(3), Some(&33));
    assert_eq!(c.get(4), None);
    assert!(c.contains(5));
    assert!(!c.contains(0));
}

#[test]
fn remove_detaches_one_entity() {
    let mut c: CContainer<u32> = CContainer::new();
    c.insert(2, 20);
    c.insert(4, 40);
    c.insert(6, 60);
    assert_eq!(c.remove(4), Some(40));
    assert_eq!(c.remove(4), None);
    assert_eq!(c.remove(5), None);
    assert_eq!(ids(&c), vec![2, 6]);
    assert_eq!(c.get(6), Some(&60));
    assert_eq!(c.remove(2), Some(20));
    assert_eq!(c.remove(6), Some(60));
    assert_eq!(c.len(), 0);
}

#[test]
fn empty_container_has_nothing() {
    let c: CContainer<u32> = CContainer::new();
    assert_eq!(c.len(), 0);
    assert_eq!(c.get(0), None);
    assert_eq!(c.zip_entity(&c), Vec::<u64>::new());
}

#[test]
fn join_yields_exactly_shared_entities() {
    let mut a: CContainer<u32> = CContainer::new();
    let mut b: CContainer<bool> = CContainer::new();
    for e in [1u64, 2, 4, 7, 9] {
        a.insert(e, e as u32);
    }
    for e in [0u64, 2, 3, 7, 8, 9] {
        b.insert(e, true);
    }
    assert_eq!(a.zip_entity(&b), vec![2, 7, 9]);
    assert_eq!(b.zip_entity(&a), vec![2, 7, 9]);
    let mut c: CContainer<i8> = CContainer::new();
    c.insert(9, 1);
    c.insert(2, 1);
    c.insert(1, 1);
    assert_eq!(a.zip_entity2(&b, &c), vec![2, 9]);
}

#[test]
fn second_diff_without_change_reports_no_change() {
    let mut o = ValueObserver::new(false);
    o.diff(true);
    assert!(o.is_changed());
    o.diff(true);
    assert!(!o.is_changed());
    assert_eq!(o.value(), true);
}

#[test]
fn capture_sets_baseline_and_clears_change() {
    let mut o = ValueObserver::new(CharacterState::Wait);
    o.diff(CharacterState::Attack);
    assert!(o.is_changed());
    o.capture(CharacterState::Wait);
    assert!(!o.is_changed());
    o.diff(CharacterState::Wait);
    assert!(!o.is_changed());
}

#[test]
fn observer_systems_follow_animator_end() {
    let mut observers: CContainer<ValueObserver<bool>> = CContainer::new();
    observers.insert(1, ValueObserver::new(true));
    observers.insert(2, ValueObserver::new(true));
    let mut animators: CContainer<CharacterAnimator> = CContainer::new();
    animators.insert(1, CharacterAnimator { playing: Some(CharacterAnimId::Attack), at_end: false });
    capture_observers(&mut observers, &animators);
    assert_eq!(observers.get(1).unwrap().value, false);
    assert!(!observers.get(1).unwrap().changed);
    animators.insert(1, CharacterAnimator { playing: Some(CharacterAnimId::Attack), at_end: true });
    diff_observers(&mut observers, &animators);
    assert!(observers.get(1).unwrap().changed);
    // entity 2 has no animator: untouched
    assert_eq!(observers.get(2).unwrap().value, true);
    assert!(!observers.get(2).unwrap().changed);
}

fn state_step(s: CharacterState, attack: bool, edge: bool) -> CharacterState {
    let mut states = CContainer::new();
    states.insert(1, s);
    let mut inputs = CContainer::new();
    inputs.insert(1, Input { attack, ..no_input() });
    let mut obs = CContainer::new();
    obs.insert(1, ValueObserver { value: true, changed: edge });
    update_character_states(&mut states, &inputs, &obs);
    *states.get(1).unwrap()
}

#[test]
fn wait_becomes_attack_on_attack_input() {
    assert_eq!(state_step(CharacterState::Wait, true, false), CharacterState::Attack);
    assert_eq!(state_step(CharacterState::Wait, true, true), CharacterState::Attack);
}

#[test]
fn attack_becomes_wait_on_animation_edge() {
    assert_eq!(state_step(CharacterState::Attack, false, true), CharacterState::Wait);
    assert_eq!(state_step(CharacterState::Attack, true, true), CharacterState::Wait);
}

#[test]
fn no_other_state_transition() {
    assert_eq!(state_step(CharacterState::Wait, false, true), CharacterState::Wait);
    assert_eq!(state_step(CharacterState::Wait, false, false), CharacterState::Wait);
    assert_eq!(state_step(CharacterState::Attack, true, false), CharacterState::Attack);
    assert_eq!(state_step(CharacterState::Damaged, true, true), CharacterState::Damaged);
}

#[test]
fn state_without_input_is_skipped() {
    let mut states = CContainer::new();
    states.insert(1, CharacterState::Wait);
    let inputs: CContainer<Input> = CContainer::new();
    let mut obs = CContainer::new();
    obs.insert(1, ValueObserver { value: true, changed: true });
    update_character_states(&mut states, &inputs, &obs);
    assert_eq!(states.get(1), Some(&CharacterState::Wait));
}

#[test]
fn one_integration_step() {
    let mut positions = CContainer::new();
    positions.insert(1, Position { x: 0, y: 0 });
    positions.insert(2, Position { x: 5, y: 5 });
    let mut velocities = CContainer::new();
    velocities.insert(1, Velocity { x: 2, y: -1 });
    integrate(&mut positions, &velocities);
    assert_eq!(positions.get(1), Some(&Position { x: 2, y: -1 }));
    assert_eq!(positions.get(2), Some(&Position { x: 5, y: 5 }));
}

#[test]
fn two_steps_match_one_doubled_step() {
    let mut a = CContainer::new();
    a.insert(1, Position { x: 3, y: 4 });
    let mut v = CContainer::new();
    v.insert(1, Velocity { x: 2, y: -1 });
    integrate(&mut a, &v);
    integrate(&mut a, &v);
    let mut b = CContainer::new();
    b.insert(1, Position { x: 3, y: 4 });
    let mut v2 = CContainer::new();
    v2.insert(1, Velocity { x: 4, y: -2 });
    integrate(&mut b, &v2);
    assert_eq!(a.get(1), b.get(1));
    assert_eq!(a.get(1), Some(&Position { x: 7, y: 2 }));
}

#[test]
fn right_overrides_left_and_down_overrides_up() {
    let mut velocities = CContainer::new();
    velocities.insert(1, Velocity { x: 9, y: 9 });
    velocities.insert(2, Velocity { x: 9, y: 9 });
    velocities.insert(3, Velocity { x: 9, y: 9 });
    let mut inputs = CContainer::new();
    inputs.insert(1, Input { left: true, right: true, up: true, down: true, attack: false });
    inputs.insert(2, Input { left: true, up: true, ..no_input() });
    velocity_from_input(&mut velocities, &inputs);
    assert_eq!(velocities.get(1), Some(&Velocity { x: 2, y: 2 }));
    assert_eq!(velocities.get(2), Some(&Velocity { x: -2, y: -2 }));
    assert_eq!(velocities.get(3), Some(&Velocity { x: 9, y: 9 }));
    let mut idle = CContainer::new();
    idle.insert(1, no_input());
    velocity_from_input(&mut velocities, &idle);
    assert_eq!(velocities.get(1), Some(&Velocity { x: 0, y: 0 }));
}

#[test]
fn heading_follows_buttons_and_keeps_when_idle() {
    let mut headings = CContainer::new();
    headings.insert(1, Heading { octant: 4 });
    headings.insert(2, Heading { octant: 4 });
    headings.insert(3, Heading { octant: 0 });
    let mut inputs = CContainer::new();
    inputs.insert(1, Input { right: true, down: true, ..no_input() });
    inputs.insert(2, no_input());
    inputs.insert(3, Input { left: true, right: true, up: true, ..no_input() });
    heading_from_input(&mut headings, &inputs);
    assert_eq!(headings.get(1), Some(&Heading { octant: 1 }));
    assert_eq!(headings.get(2), Some(&Heading { octant: 4 }));
    assert_eq!(headings.get(3), Some(&Heading { octant: 7 }));
}

#[test]
fn seek_velocity_divides_gap_toward_zero() {
    let mut velocities = CContainer::new();
    velocities.insert(1, Velocity { x: 7, y: 7 });
    velocities.insert(2, Velocity { x: 7, y: 7 });
    let mut positions = CContainer::new();
    positions.insert(1, Position { x: 0, y: 0 });
    positions.insert(2, Position { x: 10, y: 10 });
    let mut targets = CContainer::new();
    targets.insert(1, MoveTarget { x: 120, y: -120 });
    targets.insert(2, MoveTarget { x: 59, y: -39 });
    seek_velocity(&mut velocities, &positions, &targets);
    assert_eq!(velocities.get(1), Some(&Velocity { x: 2, y: -2 }));
    assert_eq!(velocities.get(2), Some(&Velocity { x: 0, y: 0 }));
}

fn targeting_world(near_id: u64, far_id: u64) -> MoveTarget {
    let mut teams = CContainer::new();
    let mut positions = CContainer::new();
    let mut targets = CContainer::new();
    teams.insert(1, Team { id: 1 });
    positions.insert(1, Position { x: 0, y: 0 });
    targets.insert(1, MoveTarget { x: -5, y: -5 });
    teams.insert(near_id, Team { id: 2 });
    positions.insert(near_id, Position { x: 30, y: 40 });
    teams.insert(far_id, Team { id: 2 });
    positions.insert(far_id, Position { x: 150, y: 0 });
    retarget(&mut targets, &teams, &positions);
    *targets.get(1).unwrap()
}

#[test]
fn targeting_last_scanned_enemy_decides() {
    // the enemy at distance 150 is scanned last: the target falls back to self
    assert_eq!(targeting_world(2, 3), MoveTarget { x: 0, y: 0 });
    // the enemy at distance 50 is scanned last: it becomes the target
    assert_eq!(targeting_world(3, 2), MoveTarget { x: 30, y: 40 });
}

#[test]
fn targeting_ignores_teammates_and_range_is_strict() {
    let mut teams = CContainer::new();
    let mut positions = CContainer::new();
    let mut targets = CContainer::new();
    teams.insert(1, Team { id: 1 });
    positions.insert(1, Position { x: 0, y: 0 });
    targets.insert(1, MoveTarget { x: -5, y: -5 });
    teams.insert(2, Team { id: 1 });
    positions.insert(2, Position { x: 1, y: 0 });
    retarget(&mut targets, &teams, &positions);
    assert_eq!(targets.get(1), Some(&MoveTarget { x: -5, y: -5 }));
    teams.insert(3, Team { id: 2 });
    positions.insert(3, Position { x: 60, y: 80 });
    retarget(&mut targets, &teams, &positions);
    assert_eq!(targets.get(1), Some(&MoveTarget { x: 0, y: 0 }));
    positions.insert(3, Position { x: 60, y: 79 });
    retarget(&mut targets, &teams, &positions);
    assert_eq!(targets.get(1), Some(&MoveTarget { x: 60, y: 79 }));
}

#[test]
fn state_change_selects_clip() {
    let mut animators = CContainer::new();
    animators.insert(1, CharacterAnimator { playing: Some(CharacterAnimId::Wait), at_end: true });
    animators.insert(2, CharacterAnimator { playing: Some(CharacterAnimId::Wait), at_end: true });
    let mut obs = CContainer::new();
    obs.insert(1, ValueObserver { value: CharacterState::Attack, changed: true });
    obs.insert(2, ValueObserver { value: CharacterState::Attack, changed: false });
    select_animation(&mut animators, &obs);
    assert_eq!(
        animators.get(1),
        Some(&CharacterAnimator { playing: Some(CharacterAnimId::Attack), at_end: false })
    );
    assert_eq!(
        animators.get(2),
        Some(&CharacterAnimator { playing: Some(CharacterAnimId::Wait), at_end: true })
    );
}

#[test]
fn attack_clip_ends_then_retriggers() {
    let mut animators = CContainer::new();
    animators.insert(1, CharacterAnimator { playing: Some(CharacterAnimId::Attack), at_end: true });
    animators.insert(2, CharacterAnimator { playing: Some(CharacterAnimId::Attack), at_end: true });
    animators.insert(3, CharacterAnimator { playing: Some(CharacterAnimId::Attack), at_end: false });
    let mut inputs = CContainer::new();
    inputs.insert(1, Input { attack: true, ..no_input() });
    inputs.insert(2, no_input());
    inputs.insert(3, Input { attack: true, ..no_input() });
    attack_animation(&mut animators, &inputs);
    let attack = CharacterAnimator { playing: Some(CharacterAnimId::Attack), at_end: false };
    let wait = CharacterAnimator { playing: Some(CharacterAnimId::Wait), at_end: false };
    assert_eq!(animators.get(1), Some(&attack));
    assert_eq!(animators.get(2), Some(&wait));
    assert_eq!(animators.get(3), Some(&attack));
}

#[test]
fn animator_play_restarts_clip() {
    let mut a = CharacterAnimator::new();
    assert_eq!(a.playing_id(), None);
    a.at_end = true;
    a.play(CharacterAnimId::Damaged);
    assert_eq!(a.playing_id(), Some(CharacterAnimId::Damaged));
    assert!(!a.is_end());
}

#[test]
fn team_id_reads_id() {
    assert_eq!(Team { id: 4 }.team_id(), 4);
}

#[test]
fn damaged_clip_follows_hit_flag() {
    let mut animators = CContainer::new();
    animators.insert(1, CharacterAnimator { playing: Some(CharacterAnimId::Wait), at_end: false });
    animators.insert(2, CharacterAnimator { playing: Some(CharacterAnimId::Damaged), at_end: true });
    let mut defenses = CContainer::new();
    defenses.insert(1, DefenseCollider { center_x: 0, center_y: 0, radius: 5, hit: true });
    defenses.insert(2, DefenseCollider { center_x: 0, center_y: 0, radius: 5, hit: false });
    damage_animation(&mut animators, &defenses);
    assert_eq!(
        animators.get(1),
        Some(&CharacterAnimator { playing: Some(CharacterAnimId::Damaged), at_end: false })
    );
    assert_eq!(
        animators.get(2),
        Some(&CharacterAnimator { playing: Some(CharacterAnimId::Wait), at_end: false })
    );
}
