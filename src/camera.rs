use vstd::prelude::*;
use vstd::arithmetic::div_mod::*;

use crate::map::{Hit, WallMap};
use crate::math::{fits_i64, lemma_rotate_quarter, Ray, Vector2, ONE};

verus! {

/// A full turn in fixed-point degrees (`ONE` per degree).
pub const FULL_TURN: i64 = 23592960;

/// Brings an angle back into `[0, FULL_TURN)` by a single step of a full turn.
pub open spec fn wrap_spec(d: int) -> int {
    if d >= FULL_TURN {
        d - FULL_TURN
    } else if d < 0 {
        d + FULL_TURN
    } else {
        d
    }
}

/// Angle of column `i` of a fan of `width` rays spanning `fov` whole degrees:
/// `fov / 2 - i * fov / (width - 1)`, wrapped.
pub open spec fn fan_angle(fov: int, width: int, i: int) -> int {
    wrap_spec(fov * ONE / 2 - i * (fov * ONE / (width - 1)))
}

/// Coordinates no larger than one world unit: a cosine and sine pair, or a fan direction.
pub open spec fn is_unit_like(v: Vector2) -> bool {
    -ONE <= v.x <= ONE && -ONE <= v.y <= ONE
}

/// A base ray moved to `pos` and turned by the heading whose cosine and sine are `facing`.
pub open spec fn view_ray(base: Ray, pos: Vector2, facing: Vector2) -> Ray {
    Ray {
        origin: Vector2 { x: (base.origin.x + pos.x) as i64, y: (base.origin.y + pos.y) as i64 },
        direction: Vector2 {
            x: base.direction.rotated_x(facing) as i64,
            y: base.direction.rotated_y(facing) as i64,
        },
    }
}

pub fn wrap_degrees(d: i64) -> (r: i64)
    requires
        -FULL_TURN <= d < 2 * FULL_TURN,
    ensures
        r == wrap_spec(d as int),
        0 <= r < FULL_TURN,
{
    if d >= FULL_TURN {
        d - FULL_TURN
    } else if d < 0 {
        d + FULL_TURN
    } else {
        d
    }
}

/// A heading pushed past a full turn, or below zero, by less than a full turn comes back
/// into `[0, FULL_TURN)` as the same direction: it differs by a whole number of turns.
pub proof fn lemma_wrap_equivalent(d: int)
    requires
        -FULL_TURN <= d < 2 * FULL_TURN,
    ensures
        0 <= wrap_spec(d) < FULL_TURN,
        wrap_spec(d) % (FULL_TURN as int) == d % (FULL_TURN as int),
        d >= FULL_TURN ==> wrap_spec(d) == d - FULL_TURN,
        d < 0 ==> wrap_spec(d) == d + FULL_TURN,
{
    if d >= FULL_TURN {
        lemma_mod_sub_multiples_vanish(d, FULL_TURN as int);
    } else if d < 0 {
        lemma_mod_add_multiples_vanish(d, FULL_TURN as int);
    }
}

/// The angles of a fan of `width` rays spanning `fov` degrees, from `+fov/2` to `-fov/2`.
pub fn fan_angles(fov: i32, width: u32) -> (r: Vec<i64>)
    requires
        0 <= fov <= 360,
        width >= 2,
    ensures
        r@.len() == width,
        forall|i: int| 0 <= i < width ==> #[trigger] r@[i] == fan_angle(fov as int, width as int, i),
        forall|i: int| 0 <= i < width ==> 0 <= #[trigger] r@[i] < FULL_TURN,
{
    let span: i64 = fov as i64 * ONE;
    let step: i64 = span / (width as i64 - 1);
    let half: i64 = span / 2;
    proof {
        lemma_fundamental_div_mod(span as int, width - 1);
        lemma_mod_bound(span as int, width - 1);
        let q = (span as int) / (width - 1);
        assert(step == q);
        assert(step * (width - 1) <= span) by (nonlinear_arith)
            requires span == (width - 1) * q + (span as int) % (width - 1), (span as int) % (width - 1) >= 0, step == q;
        assert(step >= 0);
    }
    let mut out: Vec<i64> = Vec::new();
    let mut i: u32 = 0;
    while i < width
        invariant
            i <= width,
            width >= 2,
            0 <= fov <= 360,
            span == fov * ONE,
            step as int == (span as int) / (width - 1),
            half as int == (span as int) / 2,
            0 <= step,
            step * (width - 1) <= span,
            out@.len() == i,
            forall|k: int| 0 <= k < i ==> #[trigger] out@[k] == fan_angle(fov as int, width as int, k),
            forall|k: int| 0 <= k < i ==> 0 <= #[trigger] out@[k] < FULL_TURN,
        decreases width - i,
    {
        proof {
            assert(0 <= i * step <= step * (width - 1)) by (nonlinear_arith)
                requires 0 <= i < width, step >= 0;
        }
        let a = wrap_degrees(half - i as i64 * step);
        out.push(a);
        i += 1;
    }
    out
}

/// Rotating a unit-like vector by a unit-like pair stays within two world units.
pub proof fn lemma_rotated_bounds(v: Vector2, u: Vector2)
    requires
        is_unit_like(v),
        is_unit_like(u),
    ensures
        -2 * ONE <= v.rotated_x(u) <= 2 * ONE,
        -2 * ONE <= v.rotated_y(u) <= 2 * ONE,
{
    let k = ONE as int;
    assert(-2 * k * k <= v.x * u.x - v.y * u.y <= 2 * k * k) by (nonlinear_arith)
        requires -k <= v.x <= k, -k <= v.y <= k, -k <= u.x <= k, -k <= u.y <= k, k > 0;
    assert(-2 * k * k <= v.x * u.y + v.y * u.x <= 2 * k * k) by (nonlinear_arith)
        requires -k <= v.x <= k, -k <= v.y <= k, -k <= u.x <= k, -k <= u.y <= k, k > 0;
    lemma_div_is_ordered(-2 * k * k, v.x * u.x - v.y * u.y, k);
    lemma_div_is_ordered(v.x * u.x - v.y * u.y, 2 * k * k, k);
    lemma_div_is_ordered(-2 * k * k, v.x * u.y + v.y * u.x, k);
    lemma_div_is_ordered(v.x * u.y + v.y * u.x, 2 * k * k, k);
    assert(-2 * k * k == k * (-2 * k)) by (nonlinear_arith);
    assert(2 * k * k == k * (2 * k)) by (nonlinear_arith);
    lemma_div_multiples_vanish(-2 * k, k);
    lemma_div_multiples_vanish(2 * k, k);
}

/// The viewer: position, heading, and the fan of rays, one per screen column.
#[derive(Clone, Debug)]
pub struct Camera {
    pub pos: Vector2,
    /// Heading in fixed-point degrees, in `[0, FULL_TURN)`.
    pub angle_deg: i64,
    /// Cosine and sine of the heading, in fixed point.
    pub facing: Vector2,
    /// The fan at the local origin, before translation and rotation.
    pub initial_rays: Vec<Ray>,
    /// The fan as seen from the current position and heading.
    pub rotated_rays: Vec<Ray>,
}

impl Camera {
    pub open spec fn wf(&self) -> bool {
        &&& 0 <= self.angle_deg < FULL_TURN
        &&& self.pos.in_bounds()
        &&& is_unit_like(self.facing)
        &&& self.initial_rays@.len() == self.rotated_rays@.len()
        &&& forall|i: int| 0 <= i < self.initial_rays@.len() ==> {
            &&& (#[trigger] self.initial_rays@[i]).origin == (Vector2 { x: 0, y: 0 })
            &&& is_unit_like(self.initial_rays@[i].direction)
        }
        &&& forall|i: int| 0 <= i < self.rotated_rays@.len() ==>
            #[trigger] self.rotated_rays@[i] == view_ray(self.initial_rays@[i], self.pos, self.facing)
    }

    /// Builds a camera at `pos` with heading `angle` (whose cosine and sine are `facing`)
    /// and one base ray per entry of `directions`, all leaving the local origin.
    pub fn new(pos: Vector2, angle: i64, facing: Vector2, directions: Vec<Vector2>) -> (c: Camera)
        requires
            pos.in_bounds(),
            0 <= angle < FULL_TURN,
            is_unit_like(facing),
            forall|i: int| 0 <= i < directions@.len() ==> is_unit_like(#[trigger] directions@[i]),
        ensures
            c.wf(),
            c.pos == pos,
            c.angle_deg == angle,
            c.facing == facing,
            c.initial_rays@.len() == directions@.len(),
            forall|i: int| 0 <= i < directions@.len() ==> (#[trigger] c.initial_rays@[i]).direction == directions@[i],
    {
        let mut rays: Vec<Ray> = Vec::new();
        let mut i: usize = 0;
        while i < directions.len()
            invariant
                i <= directions@.len(),
                rays@.len() == i,
                forall|k: int| 0 <= k < directions@.len() ==> is_unit_like(#[trigger] directions@[k]),
                forall|k: int| 0 <= k < i ==> (#[trigger] rays@[k]).direction == directions@[k]
                    && rays@[k].origin == (Vector2 { x: 0, y: 0 }),
            decreases directions@.len() - i,
        {
            rays.push(Ray::new(Vector2::new(0, 0), directions[i]));
            i += 1;
        }
        let rotated = Self::view_rays(&rays, pos, facing);
        Camera { pos, angle_deg: angle, facing, initial_rays: rays, rotated_rays: rotated }
    }

    /// Translates then rotates every base ray.
    fn view_rays(base: &Vec<Ray>, pos: Vector2, facing: Vector2) -> (r: Vec<Ray>)
        requires
            pos.in_bounds(),
            is_unit_like(facing),
            forall|i: int| 0 <= i < base@.len() ==> {
                &&& (#[trigger] base@[i]).origin == (Vector2 { x: 0, y: 0 })
                &&& is_unit_like(base@[i].direction)
            },
        ensures
            r@.len() == base@.len(),
            forall|i: int| 0 <= i < r@.len() ==> #[trigger] r@[i] == view_ray(base@[i], pos, facing),
    {
        let mut out: Vec<Ray> = Vec::new();
        let mut i: usize = 0;
        while i < base.len()
            invariant
                i <= base@.len(),
                out@.len() == i,
                pos.in_bounds(),
                is_unit_like(facing),
                forall|k: int| 0 <= k < base@.len() ==> {
                    &&& (#[trigger] base@[k]).origin == (Vector2 { x: 0, y: 0 })
                    &&& is_unit_like(base@[k].direction)
                },
                forall|k: int| 0 <= k < i ==> #[trigger] out@[k] == view_ray(base@[k], pos, facing),
            decreases base@.len() - i,
        {
            let b = base[i];
            proof {
                lemma_rotated_bounds(b.direction, facing);
            }
            let r = b.translate(&pos).rotate(&facing);
            out.push(r);
            i += 1;
        }
        out
    }

    /// Moves the camera by `v`.
    pub fn translate(&mut self, v: &Vector2)
        requires
            old(self).wf(),
            (Vector2 { x: (old(self).pos.x + v.x) as i64, y: (old(self).pos.y + v.y) as i64 }).in_bounds(),
            fits_i64(old(self).pos.x + v.x),
            fits_i64(old(self).pos.y + v.y),
        ensures
            final(self).wf(),
            final(self).pos.x == old(self).pos.x + v.x,
            final(self).pos.y == old(self).pos.y + v.y,
            final(self).angle_deg == old(self).angle_deg,
            final(self).facing == old(self).facing,
            final(self).initial_rays@ == old(self).initial_rays@,
    {
        self.pos = self.pos.add(v);
        self.rotated_rays = Self::view_rays(&self.initial_rays, self.pos, self.facing);
    }

    /// Turns the camera by `delta` fixed-point degrees, wrapping the heading once; `facing`
    /// is the cosine and sine of the new heading.
    pub fn rotate(&mut self, delta: i64, facing: Vector2)
        requires
            old(self).wf(),
            -FULL_TURN <= old(self).angle_deg + delta < 2 * FULL_TURN,
            is_unit_like(facing),
        ensures
            final(self).wf(),
            final(self).angle_deg == wrap_spec(old(self).angle_deg + delta),
            final(self).facing == facing,
            final(self).pos == old(self).pos,
            final(self).initial_rays@ == old(self).initial_rays@,
    {
        self.angle_deg = wrap_degrees(self.angle_deg + delta);
        self.facing = facing;
        self.rotated_rays = Self::view_rays(&self.initial_rays, self.pos, self.facing);
    }

    /// Unit vector of the heading.
    pub fn forward(&self) -> (r: Vector2)
        ensures
            r == self.facing,
    {
        self.facing
    }

    pub fn backward(&self) -> (r: Vector2)
        requires
            self.wf(),
        ensures
            r.x == -self.facing.x,
            r.y == -self.facing.y,
    {
        self.forward().negate()
    }

    /// The heading turned a quarter turn counter-clockwise.
    pub fn left(&self) -> (r: Vector2)
        requires
            self.wf(),
        ensures
            r.x == -self.facing.y,
            r.y == self.facing.x,
    {
        let quarter = Vector2::new(0, ONE);
        proof {
            lemma_rotate_quarter(self.facing);
        }
        self.forward().rotate(&quarter)
    }

    pub fn right(&self) -> (r: Vector2)
        requires
            self.wf(),
        ensures
            r.x == self.facing.y,
            r.y == -self.facing.x,
    {
        self.left().negate()
    }

    /// The nearest hit of every ray of the fan, in column order.
    pub fn compute_frame(&self, map: &WallMap) -> (r: Vec<Option<Hit>>)
        requires
            self.wf(),
            map.wf(),
        ensures
            r@.len() == self.rotated_rays@.len(),
            forall|i: int| 0 <= i < r@.len() ==> map.is_nearest(self.rotated_rays@[i], #[trigger] r@[i]),
    {
        let mut out: Vec<Option<Hit>> = Vec::new();
        let mut i: usize = 0;
        while i < self.rotated_rays.len()
            invariant
                self.wf(),
                map.wf(),
                i <= self.rotated_rays@.len(),
                out@.len() == i,
                forall|k: int| 0 <= k < i ==> map.is_nearest(self.rotated_rays@[k], #[trigger] out@[k]),
            decreases self.rotated_rays@.len() - i,
        {
            proof {
                let b = self.initial_rays@[i as int];
                lemma_rotated_bounds(b.direction, self.facing);
            }
            let h = map.cast(&self.rotated_rays[i]);
            out.push(h);
            i += 1;
        }
        out
    }
}

} // verus!
