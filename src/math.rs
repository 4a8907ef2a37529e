use vstd::prelude::*;
use vstd::arithmetic::div_mod::*;

verus! {

/// Fixed-point units in one world unit: coordinates carry 16 fractional bits.
pub const ONE: i64 = 65536;

/// Largest coordinate magnitude accepted by the intersection routine (16384 world units).
pub const LIMIT: i64 = 1073741824;

pub open spec fn fits_i64(v: int) -> bool {
    i64::MIN <= v <= i64::MAX
}

/// Two-dimensional cross product over mathematical integers.
pub open spec fn cross_int(ax: int, ay: int, bx: int, by: int) -> int {
    ax * by - ay * bx
}

/// `r` is the integer square root of `n`.
pub open spec fn is_isqrt(n: int, r: int) -> bool {
    0 <= r && r * r <= n < (r + 1) * (r + 1)
}

/// The integer square root of a non-negative `n`.
pub open spec fn isqrt_spec(n: int) -> int {
    choose|r: int| is_isqrt(n, r)
}

pub proof fn lemma_isqrt_unique(n: int, r1: int, r2: int)
    requires
        is_isqrt(n, r1),
        is_isqrt(n, r2),
    ensures
        r1 == r2,
{
    if r1 < r2 {
        assert((r1 + 1) * (r1 + 1) <= r2 * r2) by (nonlinear_arith)
            requires 0 <= r1 + 1 <= r2;
    } else if r2 < r1 {
        assert((r2 + 1) * (r2 + 1) <= r1 * r1) by (nonlinear_arith)
            requires 0 <= r2 + 1 <= r1;
    }
}

/// Integer square root, by bisection.
pub fn isqrt(n: u128) -> (r: u64)
    ensures
        is_isqrt(n as int, r as int),
        r as int == isqrt_spec(n as int),
{
    let mut lo: u128 = 0;
    let mut hi: u128 = 0x1_0000_0000_0000_0000;
    assert(hi * hi > n) by (nonlinear_arith)
        requires hi == 0x1_0000_0000_0000_0000u128, n <= u128::MAX;
    while hi - lo > 1
        invariant
            lo < hi <= 0x1_0000_0000_0000_0000u128,
            lo * lo <= n,
            n < hi * hi,
        decreases hi - lo,
    {
        let mid: u128 = lo + (hi - lo) / 2;
        assert(mid * mid < 0x1_0000_0000_0000_0000_0000_0000_0000_0000) by (nonlinear_arith)
            requires mid < 0x1_0000_0000_0000_0000u128, mid >= 0;
        if mid * mid <= n {
            lo = mid;
        } else {
            hi = mid;
        }
    }
    assert(hi == lo + 1);
    proof {
        lemma_isqrt_unique(n as int, lo as int, isqrt_spec(n as int));
    }
    lo as u64
}

/// A product of two `i64` values always fits in an `i128`, with room for one more such term.
pub proof fn lemma_product_bounds(a: int, b: int)
    requires
        fits_i64(a),
        fits_i64(b),
    ensures
        -0x3fff_ffff_ffff_ffff_8000_0000_0000_0000 <= a * b <= 0x4000_0000_0000_0000_0000_0000_0000_0000,
{
    assert(-0x3fff_ffff_ffff_ffff_8000_0000_0000_0000 <= a * b <= 0x4000_0000_0000_0000_0000_0000_0000_0000) by (nonlinear_arith)
        requires -0x8000_0000_0000_0000 <= a <= 0x7fff_ffff_ffff_ffff, -0x8000_0000_0000_0000 <= b <= 0x7fff_ffff_ffff_ffff;
}

/// Floor division by a positive divisor.
pub fn div_floor(a: i128, b: i128) -> (r: i128)
    requires
        b > 0,
        a > i128::MIN,
    ensures
        r == a as int / b as int,
{
    if a >= 0 {
        a / b
    } else {
        let q: i128 = (-a - 1) / b;
        proof {
            let m = (-a - 1) as int;
            lemma_fundamental_div_mod(m, b as int);
            lemma_mod_bound(m, b as int);
            let rr = m % (b as int);
            assert(a as int == (-q - 1) * b + (b - rr - 1)) by (nonlinear_arith)
                requires m == b as int * q as int + rr, m == -a - 1;
            lemma_fundamental_div_mod_converse(a as int, b as int, -q - 1, b - rr - 1);
        }
        -q - 1
    }
}

/// A point or displacement in the plane, in fixed point (`ONE` per world unit).
#[derive(Clone, Copy, Debug, PartialEq, Eq, Structural)]
pub struct Vector2 {
    pub x: i64,
    pub y: i64,
}

impl Vector2 {
    pub open spec fn in_bounds(self) -> bool {
        -LIMIT <= self.x <= LIMIT && -LIMIT <= self.y <= LIMIT
    }

    pub open spec fn norm_sq(self) -> int {
        self.x * self.x + self.y * self.y
    }

    /// Euclidean length, rounded down to a fixed-point value.
    pub open spec fn magnitude_spec(self) -> int {
        isqrt_spec(self.norm_sq())
    }

    /// First coordinate after rotating by the angle whose cosine and sine are `u.x / ONE` and `u.y / ONE`.
    pub open spec fn rotated_x(self, u: Vector2) -> int {
        (self.x * u.x - self.y * u.y) / (ONE as int)
    }

    pub open spec fn rotated_y(self, u: Vector2) -> int {
        (self.x * u.y + self.y * u.x) / (ONE as int)
    }

    pub fn new(x: i64, y: i64) -> (r: Vector2)
        ensures
            r.x == x,
            r.y == y,
    {
        Vector2 { x, y }
    }

    pub fn subtract(&self, other: &Self) -> (r: Self)
        requires
            fits_i64(self.x - other.x),
            fits_i64(self.y - other.y),
        ensures
            r.x == self.x - other.x,
            r.y == self.y - other.y,
    {
        Vector2 { x: self.x - other.x, y: self.y - other.y }
    }

    pub fn add(&self, other: &Self) -> (r: Self)
        requires
            fits_i64(self.x + other.x),
            fits_i64(self.y + other.y),
        ensures
            r.x == self.x + other.x,
            r.y == self.y + other.y,
    {
        Vector2 { x: self.x + other.x, y: self.y + other.y }
    }

    /// Scales by the fixed-point factor `scalar / ONE`, rounding down.
    pub fn multiply(&self, scalar: i64) -> (r: Self)
        requires
            fits_i64(self.x * scalar / (ONE as int)),
            fits_i64(self.y * scalar / (ONE as int)),
        ensures
            r.x == self.x * scalar / (ONE as int),
            r.y == self.y * scalar / (ONE as int),
    {
        proof {
            lemma_product_bounds(self.x as int, scalar as int);
            lemma_product_bounds(self.y as int, scalar as int);
        }
        let x = div_floor(self.x as i128 * scalar as i128, ONE as i128);
        let y = div_floor(self.y as i128 * scalar as i128, ONE as i128);
        Vector2 { x: x as i64, y: y as i64 }
    }

    /// The vector pointing the other way.
    pub fn negate(&self) -> (r: Self)
        requires
            self.x > i64::MIN,
            self.y > i64::MIN,
        ensures
            r.x == -self.x,
            r.y == -self.y,
    {
        Vector2 { x: -self.x, y: -self.y }
    }

    /// Rotates by the angle whose cosine and sine, in fixed point, are `unit.x` and `unit.y`
    /// (standard rotation matrix; each coordinate rounded down).
    pub fn rotate(&self, unit: &Vector2) -> (r: Vector2)
        requires
            fits_i64(self.rotated_x(*unit)),
            fits_i64(self.rotated_y(*unit)),
        ensures
            r.x == self.rotated_x(*unit),
            r.y == self.rotated_y(*unit),
    {
        let (x, y, c, s) = (self.x as i128, self.y as i128, unit.x as i128, unit.y as i128);
        proof {
            lemma_product_bounds(x as int, c as int);
            lemma_product_bounds(y as int, s as int);
            lemma_product_bounds(x as int, s as int);
            lemma_product_bounds(y as int, c as int);
        }
        let nx = div_floor(x * c - y * s, ONE as i128);
        let ny = div_floor(x * s + y * c, ONE as i128);
        Vector2 { x: nx as i64, y: ny as i64 }
    }

    /// Euclidean length in fixed point, rounded down.
    pub fn magnitude(&self) -> (r: i64)
        requires
            self.norm_sq() < 0x4000_0000_0000_0000_0000_0000_0000_0000,
        ensures
            r == self.magnitude_spec(),
            is_isqrt(self.norm_sq(), r as int),
    {
        let (x, y) = (self.x as i128, self.y as i128);
        proof {
            assert(0 <= x * x <= 0x4000_0000_0000_0000_0000_0000_0000_0000) by (nonlinear_arith)
                requires i64::MIN <= x <= i64::MAX;
            assert(0 <= y * y <= 0x4000_0000_0000_0000_0000_0000_0000_0000) by (nonlinear_arith)
                requires i64::MIN <= y <= i64::MAX;
        }
        let n: u128 = (x * x) as u128 + (y * y) as u128;
        let r = isqrt(n);
        proof {
            if r as int > i64::MAX {
                assert(r * r >= 0x4000_0000_0000_0000_0000_0000_0000_0000) by (nonlinear_arith)
                    requires r >= 0x8000_0000_0000_0000int;
            }
        }
        r as i64
    }

    /// Two-dimensional cross product `x1*y2 - y1*x2`, exact.
    pub fn cross(&self, other: &Vector2) -> (r: i128)
        ensures
            r == cross_int(self.x as int, self.y as int, other.x as int, other.y as int),
    {
        let (ax, ay, bx, by) = (self.x as i128, self.y as i128, other.x as i128, other.y as i128);
        proof {
            lemma_product_bounds(ax as int, by as int);
            lemma_product_bounds(ay as int, bx as int);
        }
        ax * by - ay * bx
    }
}

/// `(den * w + ab * un) / den` splits into `w` and a part that stays between zero and `ab`.
pub proof fn lemma_split_quotient(w: int, ab: int, den: int, un: int)
    requires
        den > 0,
        0 <= un <= den,
    ensures
        (den * w + ab * un) / den == w + (ab * un) / den,
        ab >= 0 ==> 0 <= (ab * un) / den <= ab,
        ab < 0 ==> ab <= (ab * un) / den <= 0,
{
    let q = (ab * un) / den;
    let r = (ab * un) % den;
    lemma_fundamental_div_mod(ab * un, den);
    lemma_mod_bound(ab * un, den);
    assert(den * w + ab * un == (w + q) * den + r) by (nonlinear_arith)
        requires ab * un == den * q + r;
    lemma_fundamental_div_mod_converse(den * w + ab * un, den, w + q, r);
    lemma_div_multiples_vanish(ab, den);
    lemma_div_multiples_vanish(0, den);
    if ab >= 0 {
        assert(0 <= ab * un <= den * ab) by (nonlinear_arith)
            requires ab >= 0, 0 <= un <= den;
        lemma_div_is_ordered(0, ab * un, den);
        lemma_div_is_ordered(ab * un, den * ab, den);
    } else {
        assert(den * ab <= ab * un <= 0) by (nonlinear_arith)
            requires ab < 0, 0 <= un <= den;
        lemma_div_is_ordered(den * ab, ab * un, den);
        lemma_div_is_ordered(ab * un, 0, den);
    }
}

/// Cramer's rule for the ray/segment system: `d * t = w * den + ab * u`, coordinate by
/// coordinate, whichever sign the three numerators share.
pub proof fn lemma_cramer(wx: int, wy: int, dx: int, dy: int, abx: int, aby: int, den: int, tn: int, un: int)
    requires
        (den == cross_int(dx, dy, abx, aby) && tn == cross_int(wx, wy, abx, aby) && un == cross_int(wx, wy, dx, dy))
        || (den == -cross_int(dx, dy, abx, aby) && tn == -cross_int(wx, wy, abx, aby) && un == -cross_int(wx, wy, dx, dy)),
    ensures
        dx * tn == den * wx + abx * un,
        dy * tn == den * wy + aby * un,
{
    let t0 = wx * aby - wy * abx;
    let d0 = dx * aby - dy * abx;
    let u0 = wx * dy - wy * dx;
    assert(dx * t0 == d0 * wx + abx * u0) by (nonlinear_arith)
        requires t0 == wx * aby - wy * abx, d0 == dx * aby - dy * abx, u0 == wx * dy - wy * dx;
    assert(dy * t0 == d0 * wy + aby * u0) by (nonlinear_arith)
        requires t0 == wx * aby - wy * abx, d0 == dx * aby - dy * abx, u0 == wx * dy - wy * dx;
    if !(den == d0 && tn == t0 && un == u0) {
        assert(dx * tn == den * wx + abx * un) by (nonlinear_arith)
            requires dx * t0 == d0 * wx + abx * u0, tn == -t0, den == -d0, un == -u0;
        assert(dy * tn == den * wy + aby * un) by (nonlinear_arith)
            requires dy * t0 == d0 * wy + aby * u0, tn == -t0, den == -d0, un == -u0;
    }
}

/// Bounds `|d| * t` by the size of the box spanned by the origin and the segment.
pub proof fn lemma_distance_bound(
    wx: int, wy: int, dx: int, dy: int, abx: int, aby: int, den: int, tn: int, un: int, mag: int,
)
    requires
        den > 0,
        tn >= 0,
        0 <= un <= den,
        dx * tn == den * wx + abx * un,
        dy * tn == den * wy + aby * un,
        -0x8000_0000 <= wx <= 0x8000_0000,
        -0x8000_0000 <= wy <= 0x8000_0000,
        -0x8000_0000 <= abx <= 0x8000_0000,
        -0x8000_0000 <= aby <= 0x8000_0000,
        0 <= mag,
        mag * mag <= dx * dx + dy * dy,
    ensures
        0 <= (tn * mag) / den <= 0x2_0000_0000,
{
    let ax = if dx >= 0 { dx } else { -dx };
    let ay = if dy >= 0 { dy } else { -dy };
    assert(ax * ax == dx * dx) by (nonlinear_arith)
        requires ax == dx || ax == -dx;
    assert(ay * ay == dy * dy) by (nonlinear_arith)
        requires ay == dy || ay == -dy;
    assert(mag <= ax + ay) by (nonlinear_arith)
        requires 0 <= mag, mag * mag <= dx * dx + dy * dy, ax >= 0, ay >= 0, ax * ax == dx * dx, ay * ay == dy * dy;
    assert(tn * ax <= den * 0x1_0000_0000) by (nonlinear_arith)
        requires
            tn >= 0, ax >= 0, ax == dx || ax == -dx, dx * tn == den * wx + abx * un, den > 0, 0 <= un <= den,
            -0x8000_0000 <= wx <= 0x8000_0000, -0x8000_0000 <= abx <= 0x8000_0000;
    assert(tn * ay <= den * 0x1_0000_0000) by (nonlinear_arith)
        requires
            tn >= 0, ay >= 0, ay == dy || ay == -dy, dy * tn == den * wy + aby * un, den > 0, 0 <= un <= den,
            -0x8000_0000 <= wy <= 0x8000_0000, -0x8000_0000 <= aby <= 0x8000_0000;
    assert(0 <= tn * mag <= den * 0x2_0000_0000) by (nonlinear_arith)
        requires tn >= 0, 0 <= mag <= ax + ay, tn * ax <= den * 0x1_0000_0000, tn * ay <= den * 0x1_0000_0000;
    lemma_div_is_ordered(tn * mag, den * 0x2_0000_0000, den);
    lemma_div_is_ordered(0, tn * mag, den);
    lemma_div_multiples_vanish(0x2_0000_0000, den);
    lemma_div_multiples_vanish(0, den);
}

/// Flips the signs of all three when the first is negative.
fn normalize_sign(den: i128, t: i128, u: i128) -> (r: (i128, i128, i128))
    requires
        -0x8000_0000_0000_0000 <= den <= 0x8000_0000_0000_0000,
        -0x8000_0000_0000_0000 <= t <= 0x8000_0000_0000_0000,
        -0x8000_0000_0000_0000 <= u <= 0x8000_0000_0000_0000,
    ensures
        den < 0 ==> r.0 == -den && r.1 == -t && r.2 == -u,
        den >= 0 ==> r.0 == den && r.1 == t && r.2 == u,
{
    if den < 0 {
        (-den, -t, -u)
    } else {
        (den, t, u)
    }
}

/// Where a ray meets a wall.
#[derive(Clone, Copy, Debug, PartialEq, Eq, Structural)]
pub struct Intersection {
    /// Distance from the ray's origin: the ray parameter times the length of its direction.
    pub distance: i64,
    pub position: Vector2,
    /// Fractional position along the segment, from start (`0`) to end (`ONE`).
    pub offset: i64,
}

/// A ray: an origin and a direction whose length carries meaning (see `Line::cast`).
#[derive(Clone, Copy, Debug, PartialEq, Eq, Structural)]
pub struct Ray {
    pub origin: Vector2,
    pub direction: Vector2,
}

/// A wall segment between two endpoints.
#[derive(Clone, Copy, Debug, PartialEq, Eq, Structural)]
pub struct Line {
    pub start: Vector2,
    pub end: Vector2,
}

impl Ray {
    pub open spec fn in_bounds(self) -> bool {
        self.origin.in_bounds() && self.direction.in_bounds()
    }

    pub fn new(origin: Vector2, direction: Vector2) -> (r: Self)
        ensures
            r.origin == origin,
            r.direction == direction,
    {
        Ray { origin, direction }
    }

    /// Moves the origin by `v`; the direction is kept.
    pub fn translate(&self, v: &Vector2) -> (r: Self)
        requires
            fits_i64(self.origin.x + v.x),
            fits_i64(self.origin.y + v.y),
        ensures
            r.origin.x == self.origin.x + v.x,
            r.origin.y == self.origin.y + v.y,
            r.direction == self.direction,
    {
        Ray { origin: self.origin.add(v), direction: self.direction }
    }

    /// Rotates the direction by the angle whose cosine and sine are `unit`; the origin is kept.
    pub fn rotate(&self, unit: &Vector2) -> (r: Self)
        requires
            fits_i64(self.direction.rotated_x(*unit)),
            fits_i64(self.direction.rotated_y(*unit)),
        ensures
            r.origin == self.origin,
            r.direction.x == self.direction.rotated_x(*unit),
            r.direction.y == self.direction.rotated_y(*unit),
    {
        Ray { origin: self.origin, direction: self.direction.rotate(unit) }
    }
}

impl Line {
    pub open spec fn in_bounds(self) -> bool {
        self.start.in_bounds() && self.end.in_bounds()
    }

    /// `cross(d, b - a)`; zero when the ray runs parallel to the segment.
    pub open spec fn denominator(self, ray: Ray) -> int {
        cross_int(ray.direction.x as int, ray.direction.y as int,
            self.end.x - self.start.x, self.end.y - self.start.y)
    }

    /// `cross(a - origin, b - a)`: the ray parameter times the denominator.
    pub open spec fn t_numerator(self, ray: Ray) -> int {
        cross_int(self.start.x - ray.origin.x, self.start.y - ray.origin.y,
            self.end.x - self.start.x, self.end.y - self.start.y)
    }

    /// `cross(a - origin, d)`: the segment parameter times the denominator.
    pub open spec fn u_numerator(self, ray: Ray) -> int {
        cross_int(self.start.x - ray.origin.x, self.start.y - ray.origin.y,
            ray.direction.x as int, ray.direction.y as int)
    }

    /// The denominator made non-negative; `t = t_num / den` and `u = u_num / den`.
    pub open spec fn den(self, ray: Ray) -> int {
        if self.denominator(ray) < 0 { -self.denominator(ray) } else { self.denominator(ray) }
    }

    pub open spec fn t_num(self, ray: Ray) -> int {
        if self.denominator(ray) < 0 { -self.t_numerator(ray) } else { self.t_numerator(ray) }
    }

    pub open spec fn u_num(self, ray: Ray) -> int {
        if self.denominator(ray) < 0 { -self.u_numerator(ray) } else { self.u_numerator(ray) }
    }

    /// Not parallel, `t >= 0` and `0 <= u <= 1`.
    pub open spec fn is_hit(self, ray: Ray) -> bool {
        self.den(ray) != 0 && self.t_num(ray) >= 0 && 0 <= self.u_num(ray) <= self.den(ray)
    }

    /// The intersection: `position = origin + d * t`, `distance = t * |d|`, `offset = u`,
    /// each rounded down to fixed point.
    pub open spec fn cast_spec(self, ray: Ray) -> Option<Intersection> {
        if self.is_hit(ray) {
            let den = self.den(ray);
            let tn = self.t_num(ray);
            Some(Intersection {
                distance: (tn * ray.direction.magnitude_spec() / den) as i64,
                position: Vector2 {
                    x: (ray.origin.x + ray.direction.x * tn / den) as i64,
                    y: (ray.origin.y + ray.direction.y * tn / den) as i64,
                },
                offset: (self.u_num(ray) * ONE / den) as i64,
            })
        } else {
            None
        }
    }

    /// Casts `ray` at this segment. Parallel and collinear rays never hit.
    pub fn cast(&self, ray: &Ray) -> (r: Option<Intersection>)
        requires
            self.in_bounds(),
            ray.in_bounds(),
        ensures
            r == self.cast_spec(*ray),
            r matches Some(i) ==> 0 <= i.offset <= ONE && 0 <= i.distance <= 0x2_0000_0000
                && -2 * LIMIT <= i.position.x <= 2 * LIMIT && -2 * LIMIT <= i.position.y <= 2 * LIMIT,
    {
        let origin = ray.origin;
        let d = ray.direction;
        let a = self.start;
        let ab = self.end.subtract(&a);
        let w = a.subtract(&origin);
        let raw_den = d.cross(&ab);
        if raw_den == 0 {
            return None;
        }
        let raw_t = w.cross(&ab);
        let raw_u = w.cross(&d);
        proof {
            assert(-0x8000_0000_0000_0000 <= raw_t <= 0x8000_0000_0000_0000) by (nonlinear_arith)
                requires raw_t == w.x * ab.y - w.y * ab.x, -0x8000_0000 <= w.x <= 0x8000_0000,
                    -0x8000_0000 <= w.y <= 0x8000_0000, -0x8000_0000 <= ab.x <= 0x8000_0000,
                    -0x8000_0000 <= ab.y <= 0x8000_0000;
            assert(-0x8000_0000_0000_0000 <= raw_u <= 0x8000_0000_0000_0000) by (nonlinear_arith)
                requires raw_u == w.x * d.y - w.y * d.x, -0x8000_0000 <= w.x <= 0x8000_0000,
                    -0x8000_0000 <= w.y <= 0x8000_0000, -0x4000_0000 <= d.x <= 0x4000_0000,
                    -0x4000_0000 <= d.y <= 0x4000_0000;
            assert(-0x8000_0000_0000_0000 <= raw_den <= 0x8000_0000_0000_0000) by (nonlinear_arith)
                requires raw_den == d.x * ab.y - d.y * ab.x, -0x8000_0000 <= ab.x <= 0x8000_0000,
                    -0x8000_0000 <= ab.y <= 0x8000_0000, -0x4000_0000 <= d.x <= 0x4000_0000,
                    -0x4000_0000 <= d.y <= 0x4000_0000;
        }
        let neg = raw_den < 0;
        let (den, tn, un) = normalize_sign(raw_den, raw_t, raw_u);
        if tn >= 0 && un >= 0 && un <= den {
            proof {
                assert(d.norm_sq() < 0x4000_0000_0000_0000_0000_0000_0000_0000) by (nonlinear_arith)
                    requires -0x4000_0000 <= d.x <= 0x4000_0000, -0x4000_0000 <= d.y <= 0x4000_0000,
                        d.norm_sq() == d.x * d.x + d.y * d.y;
            }
            let mag = d.magnitude();
            proof {
                lemma_cramer(w.x as int, w.y as int, d.x as int, d.y as int, ab.x as int, ab.y as int,
                    den as int, tn as int, un as int);
                lemma_distance_bound(w.x as int, w.y as int, d.x as int, d.y as int, ab.x as int, ab.y as int,
                    den as int, tn as int, un as int, mag as int);
                lemma_split_quotient(w.x as int, ab.x as int, den as int, un as int);
                lemma_split_quotient(w.y as int, ab.y as int, den as int, un as int);
                assert(0 <= tn * mag <= 0x8000_0000_0000_0000 * 0x8000_0000_0000_0000) by (nonlinear_arith)
                    requires 0 <= tn <= 0x8000_0000_0000_0000, 0 <= mag <= 0x7fff_ffff_ffff_ffff;
                assert(-0x8000_0000_0000_0000_0000_0000 <= ab.x * un <= 0x8000_0000_0000_0000_0000_0000) by (nonlinear_arith)
                    requires -0x8000_0000 <= ab.x <= 0x8000_0000, 0 <= un <= 0x8000_0000_0000_0000;
                assert(-0x8000_0000_0000_0000_0000_0000 <= ab.y * un <= 0x8000_0000_0000_0000_0000_0000) by (nonlinear_arith)
                    requires -0x8000_0000 <= ab.y <= 0x8000_0000, 0 <= un <= 0x8000_0000_0000_0000;
                assert(0 <= un * 65536 <= den * 65536) by (nonlinear_arith)
                    requires 0 <= un <= den;
                lemma_div_is_ordered(un * 65536, den * 65536, den as int);
                lemma_div_is_ordered(0, un * 65536, den as int);
                lemma_div_multiples_vanish(65536, den as int);
                lemma_div_multiples_vanish(0, den as int);
            }
            let distance = div_floor(tn * (mag as i128), den);
            let qx = div_floor(ab.x as i128 * un, den);
            let qy = div_floor(ab.y as i128 * un, den);
            let offset = div_floor(un * (ONE as i128), den);
            let px = a.x as i128 + qx;
            let py = a.y as i128 + qy;
            Some(Intersection {
                distance: distance as i64,
                position: Vector2 { x: px as i64, y: py as i64 },
                offset: offset as i64,
            })
        } else {
            None
        }
    }
}

/// Rotating by the angle zero, whose cosine and sine are `(ONE, 0)`, leaves a vector as it is.
pub proof fn lemma_rotate_zero(v: Vector2)
    ensures
        v.rotated_x(Vector2 { x: ONE, y: 0 }) == v.x,
        v.rotated_y(Vector2 { x: ONE, y: 0 }) == v.y,
{
    assert(v.x * ONE - v.y * 0 == (ONE as int) * v.x) by (nonlinear_arith);
    assert(v.x * 0 + v.y * ONE == (ONE as int) * v.y) by (nonlinear_arith);
    lemma_div_multiples_vanish(v.x as int, ONE as int);
    lemma_div_multiples_vanish(v.y as int, ONE as int);
}

/// A quarter turn, whose cosine and sine are `(0, ONE)`, maps `(x, y)` to `(-y, x)`.
pub proof fn lemma_rotate_quarter(v: Vector2)
    ensures
        v.rotated_x(Vector2 { x: 0, y: ONE }) == -v.y,
        v.rotated_y(Vector2 { x: 0, y: ONE }) == v.x,
{
    assert(v.x * 0 - v.y * ONE == (ONE as int) * (-v.y)) by (nonlinear_arith);
    assert(v.x * ONE + v.y * 0 == (ONE as int) * v.x) by (nonlinear_arith);
    lemma_div_multiples_vanish(-v.y, ONE as int);
    lemma_div_multiples_vanish(v.x as int, ONE as int);
}

/// Rotation is periodic: four quarter turns, a full turn, bring a vector back to itself.
pub proof fn lemma_full_turn(v: Vector2)
    requires
        v.x > i64::MIN,
        v.y > i64::MIN,
    ensures
        ({
            let q = Vector2 { x: 0, y: ONE };
            let v1 = Vector2 { x: v.rotated_x(q) as i64, y: v.rotated_y(q) as i64 };
            let v2 = Vector2 { x: v1.rotated_x(q) as i64, y: v1.rotated_y(q) as i64 };
            let v3 = Vector2 { x: v2.rotated_x(q) as i64, y: v2.rotated_y(q) as i64 };
            v3.rotated_x(q) == v.x && v3.rotated_y(q) == v.y
        }),
{
    let q = Vector2 { x: 0, y: ONE };
    lemma_rotate_quarter(v);
    let v1 = Vector2 { x: v.rotated_x(q) as i64, y: v.rotated_y(q) as i64 };
    lemma_rotate_quarter(v1);
    let v2 = Vector2 { x: v1.rotated_x(q) as i64, y: v1.rotated_y(q) as i64 };
    lemma_rotate_quarter(v2);
    let v3 = Vector2 { x: v2.rotated_x(q) as i64, y: v2.rotated_y(q) as i64 };
    lemma_rotate_quarter(v3);
}

/// A ray parallel to a segment, or collinear with it, never hits it, whatever the overlap,
/// and neither does the same ray pointed the other way.
pub proof fn lemma_parallel_never_hits(line: Line, ray: Ray)
    requires
        line.denominator(ray) == 0,
        ray.direction.x > i64::MIN,
        ray.direction.y > i64::MIN,
    ensures
        line.cast_spec(ray) is None,
        line.cast_spec(Ray {
            origin: ray.origin,
            direction: Vector2 { x: -ray.direction.x as i64, y: -ray.direction.y as i64 },
        }) is None,
{
    let back = Ray {
        origin: ray.origin,
        direction: Vector2 { x: -ray.direction.x as i64, y: -ray.direction.y as i64 },
    };
    let abx = line.end.x - line.start.x;
    let aby = line.end.y - line.start.y;
    assert(cross_int(-ray.direction.x, -ray.direction.y, abx, aby)
        == -cross_int(ray.direction.x as int, ray.direction.y as int, abx, aby)) by (nonlinear_arith);
    assert(line.denominator(back) == 0);
}

} // verus!
