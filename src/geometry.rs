use vstd::prelude::*;

verus! {

/// Bound on collider coordinates, offsets and radii; within it every
/// intersection test is computed exactly in machine integers.
pub const ARENA: i32 = 0x2000_0000;

pub open spec fn in_arena(v: int) -> bool {
    -ARENA <= v <= ARENA
}

/// Attack reach: the segment from `origin` to `origin + reach`; it can strike
/// only while `active`.
#[derive(Clone, Copy, Debug, PartialEq, Eq, Structural)]
pub struct SwordCollider {
    pub origin_x: i32,
    pub origin_y: i32,
    pub reach_x: i32,
    pub reach_y: i32,
    pub active: bool,
}

/// A circle: the body as a weapon (hitbox).
#[derive(Clone, Copy, Debug, PartialEq, Eq, Structural)]
pub struct BodyCollider {
    pub center_x: i32,
    pub center_y: i32,
    pub radius: i32,
}

/// A circle: the body as a target (hurtbox), with whether it was hit in the
/// latest collision pass.
#[derive(Clone, Copy, Debug, PartialEq, Eq, Structural)]
pub struct DefenseCollider {
    pub center_x: i32,
    pub center_y: i32,
    pub radius: i32,
    pub hit: bool,
}

impl SwordCollider {
    pub open spec fn wf(&self) -> bool {
        &&& in_arena(self.origin_x as int)
        &&& in_arena(self.origin_y as int)
        &&& in_arena(self.reach_x as int)
        &&& in_arena(self.reach_y as int)
    }
}

impl BodyCollider {
    pub open spec fn wf(&self) -> bool {
        &&& in_arena(self.center_x as int)
        &&& in_arena(self.center_y as int)
        &&& 0 <= self.radius <= ARENA
    }
}

impl DefenseCollider {
    pub open spec fn wf(&self) -> bool {
        &&& in_arena(self.center_x as int)
        &&& in_arena(self.center_y as int)
        &&& 0 <= self.radius <= ARENA
    }
}

/// Two closed discs overlap (touching counts).
pub open spec fn circles_overlap(ax: int, ay: int, ar: int, bx: int, by: int, br: int) -> bool {
    (bx - ax) * (bx - ax) + (by - ay) * (by - ay) <= (ar + br) * (ar + br)
}

/// The circle test does not depend on which circle is the attacker.
pub proof fn lemma_circles_overlap_symmetric(ax: int, ay: int, ar: int, bx: int, by: int, br: int)
    ensures
        circles_overlap(ax, ay, ar, bx, by, br) == circles_overlap(bx, by, br, ax, ay, ar),
{
    assert((bx - ax) * (bx - ax) == (ax - bx) * (ax - bx)) by (nonlinear_arith);
    assert((by - ay) * (by - ay) == (ay - by) * (ay - by)) by (nonlinear_arith);
}

/// The closed segment from `(ax, ay)` to `(ax + dx, ay + dy)` meets the closed
/// disc of radius `r` around `(cx, cy)`: the point of the segment nearest the
/// centre lies within `r`.
pub open spec fn segment_meets_circle(
    ax: int,
    ay: int,
    dx: int,
    dy: int,
    cx: int,
    cy: int,
    r: int,
) -> bool {
    let fx = cx - ax;
    let fy = cy - ay;
    let fd = fx * dx + fy * dy;
    let dd = dx * dx + dy * dy;
    if fd <= 0 {
        // nearest point is the start
        fx * fx + fy * fy <= r * r
    } else if fd >= dd {
        // nearest point is the end
        (fx - dx) * (fx - dx) + (fy - dy) * (fy - dy) <= r * r
    } else {
        // nearest point is inside: squared distance is cross^2 / dd
        (fx * dy - fy * dx) * (fx * dy - fy * dx) <= r * r * dd
    }
}

pub open spec fn sword_meets(s: SwordCollider, d: DefenseCollider) -> bool {
    segment_meets_circle(
        s.origin_x as int,
        s.origin_y as int,
        s.reach_x as int,
        s.reach_y as int,
        d.center_x as int,
        d.center_y as int,
        d.radius as int,
    )
}

pub open spec fn body_meets(b: BodyCollider, d: DefenseCollider) -> bool {
    circles_overlap(
        b.center_x as int,
        b.center_y as int,
        b.radius as int,
        d.center_x as int,
        d.center_y as int,
        d.radius as int,
    )
}

proof fn lemma_mul_bound(a: int, b: int, ba: int, bb: int)
    requires
        -ba <= a <= ba,
        -bb <= b <= bb,
    ensures
        -(ba * bb) <= a * b <= ba * bb,
        0 <= a * a <= ba * ba,
{
    assert(-(ba * bb) <= a * b <= ba * bb) by (nonlinear_arith)
        requires
            -ba <= a <= ba,
            -bb <= b <= bb,
    ;
    assert(0 <= a * a <= ba * ba) by (nonlinear_arith)
        requires
            -ba <= a <= ba,
    ;
}

pub fn circles_touch(b: &BodyCollider, d: &DefenseCollider) -> (r: bool)
    requires
        b.wf(),
        d.wf(),
    ensures
        r == body_meets(*b, *d),
{
    let dx = d.center_x as i64 - b.center_x as i64;
    let dy = d.center_y as i64 - b.center_y as i64;
    let rr = b.radius as i64 + d.radius as i64;
    proof {
        lemma_mul_bound(dx as int, dx as int, 0x4000_0000, 0x4000_0000);
        lemma_mul_bound(dy as int, dy as int, 0x4000_0000, 0x4000_0000);
        lemma_mul_bound(rr as int, rr as int, 0x4000_0000, 0x4000_0000);
    }
    dx * dx + dy * dy <= rr * rr
}

pub fn sword_touches(s: &SwordCollider, d: &DefenseCollider) -> (r: bool)
    requires
        s.wf(),
        d.wf(),
    ensures
        r == sword_meets(*s, *d),
{
    let fx = d.center_x as i128 - s.origin_x as i128;
    let fy = d.center_y as i128 - s.origin_y as i128;
    let dx = s.reach_x as i128;
    let dy = s.reach_y as i128;
    let r = d.radius as i128;
    let big: i128 = 0x4000_0000;
    proof {
        lemma_mul_bound(fx as int, dx as int, big as int, big as int);
        lemma_mul_bound(fy as int, dy as int, big as int, big as int);
        lemma_mul_bound(fx as int, dy as int, big as int, big as int);
        lemma_mul_bound(fy as int, dx as int, big as int, big as int);
        lemma_mul_bound(dx as int, dx as int, big as int, big as int);
        lemma_mul_bound(dy as int, dy as int, big as int, big as int);
        lemma_mul_bound(r as int, r as int, big as int, big as int);
        lemma_mul_bound((fx - dx) as int, (fx - dx) as int, 2 * big as int, 2 * big as int);
        lemma_mul_bound((fy - dy) as int, (fy - dy) as int, 2 * big as int, 2 * big as int);
    }
    let fd = fx * dx + fy * dy;
    let dd = dx * dx + dy * dy;
    if fd <= 0 {
        fx * fx + fy * fy <= r * r
    } else if fd >= dd {
        (fx - dx) * (fx - dx) + (fy - dy) * (fy - dy) <= r * r
    } else {
        let cross = fx * dy - fy * dx;
        let rr = r * r;
        proof {
            let bound: int = 0x2000_0000_0000_0000;
            lemma_mul_bound(cross as int, cross as int, bound, bound);
            lemma_mul_bound(rr as int, dd as int, bound, bound);
            assert(bound * bound == 0x400_0000_0000_0000_0000_0000_0000_0000);
        }
        cross * cross <= rr * dd
    }
}

} // verus!
