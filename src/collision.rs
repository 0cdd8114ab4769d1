use vstd::prelude::*;
use crate::components::{CharacterAnimId, CharacterAnimator, Position, Team};
use crate::container::{CContainer, EntityId};
use crate::geometry::{
    body_meets, circles_touch, sword_meets, sword_touches, BodyCollider, DefenseCollider,
    SwordCollider,
};

verus! {

// ---------------------------------------------------------------- poses

pub open spec fn sword_pose_entry(
    e: EntityId,
    s: SwordCollider,
    positions: CContainer<Position>,
    animators: CContainer<CharacterAnimator>,
) -> SwordCollider {
    if positions.has(e) && animators.has(e) {
        SwordCollider {
            origin_x: positions.item(e).x,
            origin_y: positions.item(e).y,
            reach_x: s.reach_x,
            reach_y: s.reach_y,
            active: animators.item(e).playing == Some(CharacterAnimId::Attack),
        }
    } else {
        s
    }
}

/// Anchors each sword at its wielder and arms it while the attack clip plays.
pub fn sword_pose(
    swords: &mut CContainer<SwordCollider>,
    positions: &CContainer<Position>,
    animators: &CContainer<CharacterAnimator>,
)
    ensures
        final(swords)@.len() == old(swords)@.len(),
        forall|i: int|
            0 <= i < old(swords)@.len() ==> #[trigger] final(swords)@[i] == (
            old(swords)@[i].0,
            sword_pose_entry(old(swords)@[i].0, old(swords)@[i].1, *positions, *animators),
            ),
{
    let n = swords.len();
    let mut i: usize = 0;
    while i < n
        invariant
            n == old(swords)@.len(),
            swords@.len() == n,
            i <= n,
            forall|j: int| i <= j < n ==> swords@[j] == old(swords)@[j],
            forall|j: int|
                0 <= j < i ==> #[trigger] swords@[j] == (
                old(swords)@[j].0,
                sword_pose_entry(old(swords)@[j].0, old(swords)@[j].1, *positions, *animators),
                ),
        decreases n - i,
    {
        let e = swords.entity_at(i);
        if let Some(p) = positions.get(e) {
            if let Some(a) = animators.get(e) {
                let s = *swords.item_at(i);
                let attacking = match a.playing_id() {
                    Some(CharacterAnimId::Attack) => true,
                    _ => false,
                };
                swords.set_at(
                    i,
                    SwordCollider {
                        origin_x: p.x,
                        origin_y: p.y,
                        reach_x: s.reach_x,
                        reach_y: s.reach_y,
                        active: attacking,
                    },
                );
            }
        }
        i = i + 1;
    }
}

pub open spec fn body_pose_entry(e: EntityId, b: BodyCollider, positions: CContainer<Position>) -> BodyCollider {
    if positions.has(e) {
        BodyCollider { center_x: positions.item(e).x, center_y: positions.item(e).y, radius: b.radius }
    } else {
        b
    }
}

/// Centres each body hitbox on its entity's position.
pub fn body_pose(bodies: &mut CContainer<BodyCollider>, positions: &CContainer<Position>)
    ensures
        final(bodies)@.len() == old(bodies)@.len(),
        forall|i: int|
            0 <= i < old(bodies)@.len() ==> #[trigger] final(bodies)@[i] == (
            old(bodies)@[i].0,
            body_pose_entry(old(bodies)@[i].0, old(bodies)@[i].1, *positions),
            ),
{
    let n = bodies.len();
    let mut i: usize = 0;
    while i < n
        invariant
            n == old(bodies)@.len(),
            bodies@.len() == n,
            i <= n,
            forall|j: int| i <= j < n ==> bodies@[j] == old(bodies)@[j],
            forall|j: int|
                0 <= j < i ==> #[trigger] bodies@[j] == (
                old(bodies)@[j].0,
                body_pose_entry(old(bodies)@[j].0, old(bodies)@[j].1, *positions),
                ),
        decreases n - i,
    {
        let e = bodies.entity_at(i);
        if let Some(p) = positions.get(e) {
            let b = *bodies.item_at(i);
            bodies.set_at(i, BodyCollider { center_x: p.x, center_y: p.y, radius: b.radius });
        }
        i = i + 1;
    }
}

pub open spec fn defense_pose_entry(
    e: EntityId,
    d: DefenseCollider,
    positions: CContainer<Position>,
) -> DefenseCollider {
    if positions.has(e) {
        DefenseCollider {
            center_x: positions.item(e).x,
            center_y: positions.item(e).y,
            radius: d.radius,
            hit: d.hit,
        }
    } else {
        d
    }
}

/// Centres each hurtbox on its entity's position.
pub fn defense_pose(defenses: &mut CContainer<DefenseCollider>, positions: &CContainer<Position>)
    ensures
        final(defenses)@.len() == old(defenses)@.len(),
        forall|i: int|
            0 <= i < old(defenses)@.len() ==> #[trigger] final(defenses)@[i] == (
            old(defenses)@[i].0,
            defense_pose_entry(old(defenses)@[i].0, old(defenses)@[i].1, *positions),
            ),
{
    let n = defenses.len();
    let mut i: usize = 0;
    while i < n
        invariant
            n == old(defenses)@.len(),
            defenses@.len() == n,
            i <= n,
            forall|j: int| i <= j < n ==> defenses@[j] == old(defenses)@[j],
            forall|j: int|
                0 <= j < i ==> #[trigger] defenses@[j] == (
                old(defenses)@[j].0,
                defense_pose_entry(old(defenses)@[j].0, old(defenses)@[j].1, *positions),
                ),
        decreases n - i,
    {
        let e = defenses.entity_at(i);
        if let Some(p) = positions.get(e) {
            let d = *defenses.item_at(i);
            defenses.set_at(
                i,
                DefenseCollider { center_x: p.x, center_y: p.y, radius: d.radius, hit: d.hit },
            );
        }
        i = i + 1;
    }
}

// ---------------------------------------------------------------- hits

/// `a` may harm `b`: distinct entities, both on a team, on different teams.
pub open spec fn hostile(teams: CContainer<Team>, a: EntityId, b: EntityId) -> bool {
    &&& a != b
    &&& teams.has(a)
    &&& teams.has(b)
    &&& teams.item(a).id != teams.item(b).id
}

pub open spec fn sword_strikes(
    s: (EntityId, SwordCollider),
    e: EntityId,
    d: DefenseCollider,
    teams: CContainer<Team>,
) -> bool {
    s.1.active && hostile(teams, s.0, e) && sword_meets(s.1, d)
}

pub open spec fn body_strikes(
    b: (EntityId, BodyCollider),
    e: EntityId,
    d: DefenseCollider,
    teams: CContainer<Team>,
) -> bool {
    hostile(teams, b.0, e) && body_meets(b.1, d)
}

/// Hurtbox `d` of entity `e` is struck by some active hostile sword or some
/// hostile body.
pub open spec fn is_struck(
    e: EntityId,
    d: DefenseCollider,
    swords: CContainer<SwordCollider>,
    bodies: CContainer<BodyCollider>,
    teams: CContainer<Team>,
) -> bool {
    (exists|j: int| 0 <= j < swords@.len() && #[trigger] sword_strikes(swords@[j], e, d, teams))
        || (exists|j: int| 0 <= j < bodies@.len() && #[trigger] body_strikes(bodies@[j], e, d, teams))
}

pub open spec fn hit_entry(
    e: EntityId,
    d: DefenseCollider,
    swords: CContainer<SwordCollider>,
    bodies: CContainer<BodyCollider>,
    teams: CContainer<Team>,
) -> DefenseCollider {
    DefenseCollider {
        center_x: d.center_x,
        center_y: d.center_y,
        radius: d.radius,
        hit: is_struck(e, d, swords, bodies, teams),
    }
}

/// Every collider lies within the arena bounds.
pub open spec fn colliders_in_arena(
    defenses: CContainer<DefenseCollider>,
    swords: CContainer<SwordCollider>,
    bodies: CContainer<BodyCollider>,
) -> bool {
    &&& forall|i: int| 0 <= i < defenses@.len() ==> (#[trigger] defenses@[i]).1.wf()
    &&& forall|i: int| 0 <= i < swords@.len() ==> (#[trigger] swords@[i]).1.wf()
    &&& forall|i: int| 0 <= i < bodies@.len() ==> (#[trigger] bodies@[i]).1.wf()
}

/// A collider never hurts its own entity nor a teammate: a hurtbox whose every
/// attacker is itself or on its team is not struck, whatever the geometry.
pub proof fn lemma_collision_exclusion(
    e: EntityId,
    d: DefenseCollider,
    swords: CContainer<SwordCollider>,
    bodies: CContainer<BodyCollider>,
    teams: CContainer<Team>,
)
    requires
        forall|j: int|
            0 <= j < swords@.len() ==> (#[trigger] swords@[j]).0 == e || (teams.has(swords@[j].0)
                && teams.has(e) && teams.item(swords@[j].0).id == teams.item(e).id),
        forall|j: int|
            0 <= j < bodies@.len() ==> (#[trigger] bodies@[j]).0 == e || (teams.has(bodies@[j].0)
                && teams.has(e) && teams.item(bodies@[j].0).id == teams.item(e).id),
    ensures
        !is_struck(e, d, swords, bodies, teams),
{
}

fn is_hostile(teams: &CContainer<Team>, a: EntityId, b: EntityId) -> (r: bool)
    ensures
        r == hostile(*teams, a, b),
{
    if a == b {
        return false;
    }
    match (teams.get(a), teams.get(b)) {
        (Some(ta), Some(tb)) => ta.team_id() != tb.team_id(),
        _ => false,
    }
}

fn struck(
    e: EntityId,
    d: &DefenseCollider,
    swords: &CContainer<SwordCollider>,
    bodies: &CContainer<BodyCollider>,
    teams: &CContainer<Team>,
) -> (r: bool)
    requires
        d.wf(),
        forall|i: int| 0 <= i < swords@.len() ==> (#[trigger] swords@[i]).1.wf(),
        forall|i: int| 0 <= i < bodies@.len() ==> (#[trigger] bodies@[i]).1.wf(),
    ensures
        r == is_struck(e, *d, *swords, *bodies, *teams),
{
    let n = swords.len();
    let mut k: usize = 0;
    while k < n
        invariant
            n == swords@.len(),
            k <= n,
            d.wf(),
            forall|i: int| 0 <= i < swords@.len() ==> (#[trigger] swords@[i]).1.wf(),
            forall|j: int| 0 <= j < k ==> !#[trigger] sword_strikes(swords@[j], e, *d, *teams),
        decreases n - k,
    {
        let s = swords.item_at(k);
        if s.active && is_hostile(teams, swords.entity_at(k), e) && sword_touches(s, d) {
            assert(sword_strikes(swords@[k as int], e, *d, *teams));
            return true;
        }
        k = k + 1;
    }
    let m = bodies.len();
    let mut k: usize = 0;
    while k < m
        invariant
            m == bodies@.len(),
            k <= m,
            d.wf(),
            forall|i: int| 0 <= i < bodies@.len() ==> (#[trigger] bodies@[i]).1.wf(),
            forall|j: int| 0 <= j < swords@.len() ==> !#[trigger] sword_strikes(swords@[j], e, *d, *teams),
            forall|j: int| 0 <= j < k ==> !#[trigger] body_strikes(bodies@[j], e, *d, *teams),
        decreases m - k,
    {
        let b = bodies.item_at(k);
        if is_hostile(teams, bodies.entity_at(k), e) && circles_touch(b, d) {
            assert(body_strikes(bodies@[k as int], e, *d, *teams));
            return true;
        }
        k = k + 1;
    }
    false
}

/// Recomputes every hurtbox's `hit` from scratch against all active hostile
/// swords and all hostile bodies.
pub fn detect_hits(
    defenses: &mut CContainer<DefenseCollider>,
    swords: &CContainer<SwordCollider>,
    bodies: &CContainer<BodyCollider>,
    teams: &CContainer<Team>,
)
    requires
        colliders_in_arena(*old(defenses), *swords, *bodies),
    ensures
        final(defenses)@.len() == old(defenses)@.len(),
        forall|i: int|
            0 <= i < old(defenses)@.len() ==> #[trigger] final(defenses)@[i] == (
            old(defenses)@[i].0,
            hit_entry(old(defenses)@[i].0, old(defenses)@[i].1, *swords, *bodies, *teams),
            ),
{
    let n = defenses.len();
    let mut i: usize = 0;
    while i < n
        invariant
            n == old(defenses)@.len(),
            defenses@.len() == n,
            i <= n,
            colliders_in_arena(*old(defenses), *swords, *bodies),
            forall|j: int| i <= j < n ==> defenses@[j] == old(defenses)@[j],
            forall|j: int|
                0 <= j < i ==> #[trigger] defenses@[j] == (
                old(defenses)@[j].0,
                hit_entry(old(defenses)@[j].0, old(defenses)@[j].1, *swords, *bodies, *teams),
                ),
        decreases n - i,
    {
        let e = defenses.entity_at(i);
        let d = *defenses.item_at(i);
        assert(old(defenses)@[i as int].1.wf());
        let hit = struck(e, &d, swords, bodies, teams);
        defenses.set_at(
            i,
            DefenseCollider { center_x: d.center_x, center_y: d.center_y, radius: d.radius, hit },
        );
        i = i + 1;
    }
}

} // verus!
