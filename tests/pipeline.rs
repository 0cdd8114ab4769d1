use arena_ecs::components::{CharacterAnimId, CharacterAnimator, CharacterState, Input, MoveTarget, Position, Team, Velocity};
use arena_ecs::geometry::{BodyCollider, DefenseCollider, SwordCollider, ARENA};
use arena_ecs::observer::ValueObserver;
use arena_ecs::world::{after_advance_order, frame_order, SystemId, World};

fn character(w: &mut World, e: u64, team: u32, x: i32, y: i32) {
    w.teams.insert(e, Team { id: team });
    w.positions.insert(e, Position { x, y });
    w.velocities.insert(e, Velocity { x: 0, y: 0 });
    w.states.insert(e, CharacterState::Wait);
    w.state_observers.insert(e, ValueObserver::new(CharacterState::Wait));
    w.anim_end_observers.insert(e, ValueObserver::new(false));
    w.animators.insert(e, CharacterAnimator { playing: Some(CharacterAnimId::Wait), at_end: false });
    w.swords.insert(e, SwordCollider { origin_x: x, origin_y: y, reach_x: 18, reach_y: 0, active: false });
    w.defenses.insert(e, DefenseCollider { center_x: x, center_y: y, radius: 10, hit: false });
}

fn run_all(w: &mut World, order: Vec<SystemId>) {
    for id in order {
        assert!(w.run_system(id));
    }
}

#[test]
fn frame_runs_collision_before_reactions() {
    let order = frame_order();
    let pos = |id: SystemId| order.iter().position(|x| *x == id).unwrap();
    assert!(pos(SystemId::Integrate) < pos(SystemId::SwordPose));
    assert!(pos(SystemId::SwordPose) < pos(SystemId::DetectHits));
    assert!(pos(SystemId::DefensePose) < pos(SystemId::DetectHits));
    assert!(pos(SystemId::DetectHits) < pos(SystemId::DamageAnimation));
    assert!(pos(SystemId::UpdateStates) < pos(SystemId::DiffStates));
    assert!(pos(SystemId::DiffStates) < pos(SystemId::SelectAnimation));
    assert_eq!(*order.last().unwrap(), SystemId::CaptureAnimEnd);
    assert_eq!(after_advance_order(), vec![SystemId::DiffAnimEnd]);
}

#[test]
fn attack_frame_damages_enemy_through_pipeline() {
    let mut w = World::new();
    character(&mut w, 1, 1, 0, 0);
    character(&mut w, 2, 2, 10, 0);
    w.inputs.insert(1, Input { left: false, right: false, up: false, down: false, attack: true });
    // first frame: A starts attacking, its sword is armed after the collision pass
    run_all(&mut w, frame_order());
    assert_eq!(w.states.get(1), Some(&CharacterState::Attack));
    assert_eq!(w.animators.get(1).unwrap().playing, Some(CharacterAnimId::Attack));
    assert!(!w.defenses.get(2).unwrap().hit);
    run_all(&mut w, after_advance_order());
    // next collision pass: B is hit and switches to the damaged clip
    run_all(&mut w, frame_order());
    assert!(w.swords.get(1).unwrap().active);
    assert!(w.defenses.get(2).unwrap().hit);
    assert!(!w.defenses.get(1).unwrap().hit);
    assert_eq!(w.animators.get(2).unwrap().playing, Some(CharacterAnimId::Damaged));
}

#[test]
fn attack_ends_on_animation_edge_through_pipeline() {
    let mut w = World::new();
    character(&mut w, 1, 1, 0, 0);
    w.inputs.insert(1, Input { left: false, right: false, up: false, down: false, attack: true });
    run_all(&mut w, frame_order());
    assert_eq!(w.states.get(1), Some(&CharacterState::Attack));
    w.inputs.insert(1, Input { left: false, right: false, up: false, down: false, attack: false });
    // the clip ends while the animators advance
    w.animators.insert(1, CharacterAnimator { playing: Some(CharacterAnimId::Attack), at_end: true });
    run_all(&mut w, after_advance_order());
    assert!(w.anim_end_observers.get(1).unwrap().changed);
    run_all(&mut w, frame_order());
    assert_eq!(w.states.get(1), Some(&CharacterState::Wait));
    assert_eq!(w.animators.get(1).unwrap().playing, Some(CharacterAnimId::Wait));
}

#[test]
fn seeking_enemy_walks_toward_player() {
    let mut w = World::new();
    character(&mut w, 1, 1, 0, 0);
    character(&mut w, 2, 2, 60, 70);
    w.move_targets.insert(2, MoveTarget { x: 60, y: 70 });
    run_all(&mut w, frame_order());
    assert_eq!(w.move_targets.get(2), Some(&MoveTarget { x: 0, y: 0 }));
    assert_eq!(w.velocities.get(2), Some(&Velocity { x: -1, y: -1 }));
    assert_eq!(w.positions.get(2), Some(&Position { x: 59, y: 69 }));
}

#[test]
fn out_of_range_systems_are_skipped() {
    let mut w = World::new();
    w.positions.insert(1, Position { x: i32::MAX, y: 0 });
    w.velocities.insert(1, Velocity { x: 1, y: 0 });
    assert!(!w.run_system(SystemId::Integrate));
    assert_eq!(w.positions.get(1), Some(&Position { x: i32::MAX, y: 0 }));
    w.bodies.insert(1, BodyCollider { center_x: ARENA + 1, center_y: 0, radius: 1 });
    assert!(!w.run_system(SystemId::DetectHits));
    w.bodies.insert(1, BodyCollider { center_x: ARENA, center_y: 0, radius: 1 });
    assert!(w.run_system(SystemId::DetectHits));
}
