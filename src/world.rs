use vstd::prelude::*;
use crate::collision::{
    body_pose, body_pose_entry, colliders_in_arena, defense_pose, defense_pose_entry,
    detect_hits, hit_entry, sword_pose, sword_pose_entry,
};
use crate::components::{
    CharacterAnimator, CharacterState, Heading, Input, MoveTarget, Position, Team, Velocity,
};
use crate::container::{CContainer, EntityId};
use crate::geometry::{BodyCollider, DefenseCollider, SwordCollider, ARENA};
use crate::observer::ValueObserver;
use crate::systems::{
    attack_animation, attack_entry, capture_entry, capture_observers, damage_animation,
    damage_entry, diff_entry, diff_observers, heading_from_input, heading_from_input_entry,
    integrate, integrate_entry, retarget, retarget_entry, seek_entry, seek_velocity,
    select_animation, select_entry, state_entry, step_fits, update_character_states,
    velocity_from_input, velocity_from_input_entry,
};

verus! {

/// `after` is `before` with every component replaced by `f` of its entity and value.
pub open spec fn updated<T>(
    before: CContainer<T>,
    after: CContainer<T>,
    f: spec_fn(EntityId, T) -> T,
) -> bool {
    &&& after@.len() == before@.len()
    &&& forall|i: int|
        0 <= i < before@.len() ==> #[trigger] after@[i] == (
        before@[i].0,
        f(before@[i].0, before@[i].1),
        )
}

/// One container per component kind.
pub struct World {
    pub teams: CContainer<Team>,
    pub positions: CContainer<Position>,
    pub velocities: CContainer<Velocity>,
    pub move_targets: CContainer<MoveTarget>,
    pub inputs: CContainer<Input>,
    pub headings: CContainer<Heading>,
    pub states: CContainer<CharacterState>,
    pub state_observers: CContainer<ValueObserver<CharacterState>>,
    pub anim_end_observers: CContainer<ValueObserver<bool>>,
    pub animators: CContainer<CharacterAnimator>,
    pub swords: CContainer<SwordCollider>,
    pub bodies: CContainer<BodyCollider>,
    pub defenses: CContainer<DefenseCollider>,
}

/// The systems, each naming the container it updates and those it reads.
#[derive(Clone, Copy, Debug, PartialEq, Eq, Structural)]
pub enum SystemId {
    /// velocities from inputs
    VelocityFromInput,
    /// headings from inputs
    HeadingFromInput,
    /// move targets from teams and positions
    Retarget,
    /// velocities from positions and move targets
    SeekVelocity,
    /// positions from velocities
    Integrate,
    /// swords from positions and animators
    SwordPose,
    /// bodies from positions
    BodyPose,
    /// defenses from positions
    DefensePose,
    /// defenses from swords, bodies and teams
    DetectHits,
    /// animation-end observers captured from animators
    CaptureAnimEnd,
    /// character states from inputs and animation-end observers
    UpdateStates,
    /// state observers diffed against states
    DiffStates,
    /// animators from state observers
    SelectAnimation,
    /// animators from inputs
    AttackAnimation,
    /// animators from defenses
    DamageAnimation,
    /// animation-end observers diffed against animators
    DiffAnimEnd,
}

impl World {
    pub fn new() -> (r: World)
        ensures
            r.teams@.len() == 0,
            r.positions@.len() == 0,
            r.velocities@.len() == 0,
            r.move_targets@.len() == 0,
            r.inputs@.len() == 0,
            r.headings@.len() == 0,
            r.states@.len() == 0,
            r.state_observers@.len() == 0,
            r.anim_end_observers@.len() == 0,
            r.animators@.len() == 0,
            r.swords@.len() == 0,
            r.bodies@.len() == 0,
            r.defenses@.len() == 0,
    {
        World {
            teams: CContainer::new(),
            positions: CContainer::new(),
            velocities: CContainer::new(),
            move_targets: CContainer::new(),
            inputs: CContainer::new(),
            headings: CContainer::new(),
            states: CContainer::new(),
            state_observers: CContainer::new(),
            anim_end_observers: CContainer::new(),
            animators: CContainer::new(),
            swords: CContainer::new(),
            bodies: CContainer::new(),
            defenses: CContainer::new(),
        }
    }

    /// What system `id` needs of the world to run without overflow.
    pub open spec fn can_run(&self, id: SystemId) -> bool {
        match id {
            SystemId::Integrate => forall|i: int|
                0 <= i < self.positions@.len() && self.velocities.has(
                    #[trigger] self.positions@[i].0,
                ) ==> step_fits(
                    self.positions@[i].1,
                    self.velocities.item(self.positions@[i].0),
                ),
            SystemId::DetectHits => colliders_in_arena(self.defenses, self.swords, self.bodies),
            _ => true,
        }
    }

    /// The containers that system `id` does not update are unchanged.
    pub open spec fn untouched(&self, w: World, id: SystemId) -> bool {
        &&& w.teams == self.teams
        &&& w.inputs == self.inputs
        &&& id != SystemId::Integrate ==> w.positions == self.positions
        &&& !(id == SystemId::VelocityFromInput || id == SystemId::SeekVelocity) ==> w.velocities
            == self.velocities
        &&& id != SystemId::Retarget ==> w.move_targets == self.move_targets
        &&& id != SystemId::HeadingFromInput ==> w.headings == self.headings
        &&& id != SystemId::UpdateStates ==> w.states == self.states
        &&& id != SystemId::DiffStates ==> w.state_observers == self.state_observers
        &&& !(id == SystemId::CaptureAnimEnd || id == SystemId::DiffAnimEnd)
            ==> w.anim_end_observers == self.anim_end_observers
        &&& !(id == SystemId::SelectAnimation || id == SystemId::AttackAnimation || id
            == SystemId::DamageAnimation) ==> w.animators == self.animators
        &&& id != SystemId::SwordPose ==> w.swords == self.swords
        &&& id != SystemId::BodyPose ==> w.bodies == self.bodies
        &&& !(id == SystemId::DefensePose || id == SystemId::DetectHits) ==> w.defenses
            == self.defenses
    }

    /// The container that system `id` updates is updated as that system states.
    pub open spec fn effect(&self, w: World, id: SystemId) -> bool {
        match id {
            SystemId::VelocityFromInput => updated(
                self.velocities,
                w.velocities,
                |e: EntityId, v: Velocity| velocity_from_input_entry(e, v, self.inputs),
            ),
            SystemId::HeadingFromInput => updated(
                self.headings,
                w.headings,
                |e: EntityId, h: Heading| heading_from_input_entry(e, h, self.inputs),
            ),
            SystemId::Retarget => updated(
                self.move_targets,
                w.move_targets,
                |e: EntityId, t: MoveTarget| retarget_entry(e, t, self.teams, self.positions),
            ),
            SystemId::SeekVelocity => updated(
                self.velocities,
                w.velocities,
                |e: EntityId, v: Velocity| seek_entry(e, v, self.positions, self.move_targets),
            ),
            SystemId::Integrate => updated(
                self.positions,
                w.positions,
                |e: EntityId, p: Position| integrate_entry(e, p, self.velocities),
            ),
            SystemId::SwordPose => updated(
                self.swords,
                w.swords,
                |e: EntityId, s: SwordCollider| sword_pose_entry(e, s, self.positions, self.animators),
            ),
            SystemId::BodyPose => updated(
                self.bodies,
                w.bodies,
                |e: EntityId, b: BodyCollider| body_pose_entry(e, b, self.positions),
            ),
            SystemId::DefensePose => updated(
                self.defenses,
                w.defenses,
                |e: EntityId, d: DefenseCollider| defense_pose_entry(e, d, self.positions),
            ),
            SystemId::DetectHits => updated(
                self.defenses,
                w.defenses,
                |e: EntityId, d: DefenseCollider| hit_entry(e, d, self.swords, self.bodies, self.teams),
            ),
            SystemId::CaptureAnimEnd => updated(
                self.anim_end_observers,
                w.anim_end_observers,
                |e: EntityId, o: ValueObserver<bool>| capture_entry(e, o, self.animators),
            ),
            SystemId::UpdateStates => updated(
                self.states,
                w.states,
                |e: EntityId, s: CharacterState| state_entry(e, s, self.inputs, self.anim_end_observers),
            ),
            SystemId::DiffStates => updated(
                self.state_observers,
                w.state_observers,
                |e: EntityId, o: ValueObserver<CharacterState>| diff_entry(e, o, self.states),
            ),
            SystemId::SelectAnimation => updated(
                self.animators,
                w.animators,
                |e: EntityId, a: CharacterAnimator| select_entry(e, a, self.state_observers),
            ),
            SystemId::AttackAnimation => updated(
                self.animators,
                w.animators,
                |e: EntityId, a: CharacterAnimator| attack_entry(e, a, self.inputs),
            ),
            SystemId::DamageAnimation => updated(
                self.animators,
                w.animators,
                |e: EntityId, a: CharacterAnimator| damage_entry(e, a, self.defenses),
            ),
            SystemId::DiffAnimEnd => updated(
                self.anim_end_observers,
                w.anim_end_observers,
                |e: EntityId, o: ValueObserver<bool>| diff_entry(e, o, self.animators),
            ),
        }
    }

    /// Runs system `id` when the world allows it; returns whether it ran.
    pub fn run_system(&mut self, id: SystemId) -> (ran: bool)
        ensures
            ran == old(self).can_run(id),
            ran ==> old(self).untouched(*final(self), id) && old(self).effect(*final(self), id),
            !ran ==> *final(self) == *old(self),
    {
        match id {
            SystemId::VelocityFromInput => velocity_from_input(&mut self.velocities, &self.inputs),
            SystemId::HeadingFromInput => heading_from_input(&mut self.headings, &self.inputs),
            SystemId::Retarget => retarget(&mut self.move_targets, &self.teams, &self.positions),
            SystemId::SeekVelocity => seek_velocity(
                &mut self.velocities,
                &self.positions,
                &self.move_targets,
            ),
            SystemId::Integrate => {
                if !steps_fit(&self.positions, &self.velocities) {
                    return false;
                }
                integrate(&mut self.positions, &self.velocities)
            },
            SystemId::SwordPose => sword_pose(&mut self.swords, &self.positions, &self.animators),
            SystemId::BodyPose => body_pose(&mut self.bodies, &self.positions),
            SystemId::DefensePose => defense_pose(&mut self.defenses, &self.positions),
            SystemId::DetectHits => {
                if !colliders_fit(&self.defenses, &self.swords, &self.bodies) {
                    return false;
                }
                detect_hits(&mut self.defenses, &self.swords, &self.bodies, &self.teams)
            },
            SystemId::CaptureAnimEnd => capture_observers(
                &mut self.anim_end_observers,
                &self.animators,
            ),
            SystemId::UpdateStates => update_character_states(
                &mut self.states,
                &self.inputs,
                &self.anim_end_observers,
            ),
            SystemId::DiffStates => diff_observers(&mut self.state_observers, &self.states),
            SystemId::SelectAnimation => select_animation(
                &mut self.animators,
                &self.state_observers,
            ),
            SystemId::AttackAnimation => attack_animation(&mut self.animators, &self.inputs),
            SystemId::DamageAnimation => damage_animation(&mut self.animators, &self.defenses),
            SystemId::DiffAnimEnd => diff_observers(&mut self.anim_end_observers, &self.animators),
        }
        true
    }
}

fn steps_fit(positions: &CContainer<Position>, velocities: &CContainer<Velocity>) -> (r: bool)
    ensures
        r == (forall|i: int|
            0 <= i < positions@.len() && velocities.has(#[trigger] positions@[i].0) ==> step_fits(
                positions@[i].1,
                velocities.item(positions@[i].0),
            )),
{
    let n = positions.len();
    let mut i: usize = 0;
    while i < n
        invariant
            n == positions@.len(),
            i <= n,
            forall|j: int|
                0 <= j < i && velocities.has(#[trigger] positions@[j].0) ==> step_fits(
                    positions@[j].1,
                    velocities.item(positions@[j].0),
                ),
        decreases n - i,
    {
        let e = positions.entity_at(i);
        if let Some(v) = velocities.get(e) {
            let p = positions.item_at(i);
            let x = p.x as i64 + v.x as i64;
            let y = p.y as i64 + v.y as i64;
            if x < i32::MIN as i64 || x > i32::MAX as i64 || y < i32::MIN as i64 || y > i32::MAX as i64 {
                return false;
            }
        }
        i = i + 1;
    }
    true
}

fn coord_fits(v: i32) -> (r: bool)
    ensures
        r == (-ARENA <= v <= ARENA),
{
    -ARENA <= v && v <= ARENA
}

fn colliders_fit(
    defenses: &CContainer<DefenseCollider>,
    swords: &CContainer<SwordCollider>,
    bodies: &CContainer<BodyCollider>,
) -> (r: bool)
    ensures
        r == colliders_in_arena(*defenses, *swords, *bodies),
{
    let n = defenses.len();
    let mut i: usize = 0;
    while i < n
        invariant
            n == defenses@.len(),
            i <= n,
            forall|j: int| 0 <= j < i ==> (#[trigger] defenses@[j]).1.wf(),
        decreases n - i,
    {
        let d = defenses.item_at(i);
        if !(coord_fits(d.center_x) && coord_fits(d.center_y) && 0 <= d.radius && d.radius <= ARENA) {
            return false;
        }
        i = i + 1;
    }
    let n = swords.len();
    let mut i: usize = 0;
    while i < n
        invariant
            n == swords@.len(),
            i <= n,
            forall|j: int| 0 <= j < defenses@.len() ==> (#[trigger] defenses@[j]).1.wf(),
            forall|j: int| 0 <= j < i ==> (#[trigger] swords@[j]).1.wf(),
        decreases n - i,
    {
        let s = swords.item_at(i);
        if !(coord_fits(s.origin_x) && coord_fits(s.origin_y) && coord_fits(s.reach_x)
            && coord_fits(s.reach_y)) {
            return false;
        }
        i = i + 1;
    }
    let n = bodies.len();
    let mut i: usize = 0;
    while i < n
        invariant
            n == bodies@.len(),
            i <= n,
            forall|j: int| 0 <= j < defenses@.len() ==> (#[trigger] defenses@[j]).1.wf(),
            forall|j: int| 0 <= j < swords@.len() ==> (#[trigger] swords@[j]).1.wf(),
            forall|j: int| 0 <= j < i ==> (#[trigger] bodies@[j]).1.wf(),
        decreases n - i,
    {
        let b = bodies.item_at(i);
        if !(coord_fits(b.center_x) && coord_fits(b.center_y) && 0 <= b.radius && b.radius <= ARENA) {
            return false;
        }
        i = i + 1;
    }
    true
}

/// The systems in the order one frame runs them before the animators advance:
/// input, movement, targeting, collider poses, collision, state and animation,
/// then the baseline of the animation-end observers.
pub fn frame_order() -> (r: Vec<SystemId>)
    ensures
        r@ == seq![
            SystemId::VelocityFromInput,
            SystemId::HeadingFromInput,
            SystemId::Retarget,
            SystemId::SeekVelocity,
            SystemId::Integrate,
            SystemId::SwordPose,
            SystemId::BodyPose,
            SystemId::DefensePose,
            SystemId::DetectHits,
            SystemId::UpdateStates,
            SystemId::DiffStates,
            SystemId::SelectAnimation,
            SystemId::AttackAnimation,
            SystemId::DamageAnimation,
            SystemId::CaptureAnimEnd,
        ],
{
    vec![
        SystemId::VelocityFromInput,
        SystemId::HeadingFromInput,
        SystemId::Retarget,
        SystemId::SeekVelocity,
        SystemId::Integrate,
        SystemId::SwordPose,
        SystemId::BodyPose,
        SystemId::DefensePose,
        SystemId::DetectHits,
        SystemId::UpdateStates,
        SystemId::DiffStates,
        SystemId::SelectAnimation,
        SystemId::AttackAnimation,
        SystemId::DamageAnimation,
        SystemId::CaptureAnimEnd,
    ]
}

/// The systems a frame runs after the animators advance: the animation-end
/// observers report whether a clip ended during the advance.
pub fn after_advance_order() -> (r: Vec<SystemId>)
    ensures
        r@ == seq![SystemId::DiffAnimEnd],
{
    vec![SystemId::DiffAnimEnd]
}

} // verus!
