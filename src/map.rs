use vstd::prelude::*;

use crate::config::WallConfig;
use crate::math::{Intersection, Line, Ray, Vector2, ONE, LIMIT};

verus! {

/// A wall of the map, with what texturing needs derived from its segment.
#[derive(Clone, Debug)]
pub struct Wall {
    pub line: Line,
    /// `|end - start|`, in fixed point.
    pub length: i64,
    pub texture_name: String,
    /// How many times the texture tiles along the wall: the length in whole world units.
    pub repeat_texture: i64,
}

/// The nearest wall a ray meets: the intersection and the index of the wall in the map.
#[derive(Clone, Copy, Debug, PartialEq, Eq, Structural)]
pub struct Hit {
    pub intersec: Intersection,
    pub wall: usize,
}

/// The static set of walls.
#[derive(Clone, Debug)]
pub struct WallMap {
    pub walls: Vec<Wall>,
}

/// Fixed-point length of a segment.
pub open spec fn segment_length(line: Line) -> int {
    Vector2 { x: (line.end.x - line.start.x) as i64, y: (line.end.y - line.start.y) as i64 }.magnitude_spec()
}

/// A wall that the renderer can texture: within bounds and at least one world unit long.
pub open spec fn is_valid_segment(line: Line) -> bool {
    line.in_bounds() && segment_length(line) >= ONE
}

impl Wall {
    pub open spec fn wf(&self) -> bool {
        &&& is_valid_segment(self.line)
        &&& self.length == segment_length(self.line)
        &&& self.length <= 0x1_0000_0000
        &&& self.repeat_texture as int == (self.length as int) / (ONE as int)
    }
}

impl WallMap {
    pub open spec fn wf(&self) -> bool {
        forall|i: int| 0 <= i < self.walls@.len() ==> #[trigger] self.walls@[i].wf()
    }

    /// `h` is a correct answer to casting `ray`: absent exactly when no wall is hit, otherwise
    /// a hit wall whose distance is no greater than that of any other hit wall.
    pub open spec fn is_nearest(&self, ray: Ray, h: Option<Hit>) -> bool {
        match h {
            None => forall|j: int| 0 <= j < self.walls@.len() ==> (#[trigger] self.walls@[j]).line.cast_spec(ray) is None,
            Some(hit) => {
                &&& hit.wall < self.walls@.len()
                &&& 0 <= hit.intersec.offset <= ONE
                &&& hit.intersec.distance >= 0
                &&& self.walls@[hit.wall as int].line.cast_spec(ray) == Some(hit.intersec)
                &&& forall|j: int| 0 <= j < self.walls@.len() && (#[trigger] self.walls@[j]).line.cast_spec(ray) is Some
                    ==> hit.intersec.distance <= self.walls@[j].line.cast_spec(ray).unwrap().distance
            },
        }
    }

    /// Builds the map. Fails when a wall lies outside the coordinate bounds or is shorter
    /// than one world unit, which would leave its texture tiling undefined.
    pub fn from_lines(walls: Vec<WallConfig>) -> (r: Option<WallMap>)
        ensures
            r is Some <==> forall|i: int| 0 <= i < walls@.len() ==> is_valid_segment(#[trigger] walls@[i].line),
            r matches Some(m) ==> m.wf() && m.walls@.len() == walls@.len() && forall|i: int|
                0 <= i < walls@.len() ==> (#[trigger] m.walls@[i]).line == walls@[i].line
                    && m.walls@[i].texture_name@ == walls@[i].texture@,
    {
        let mut out: Vec<Wall> = Vec::new();
        let mut i: usize = 0;
        while i < walls.len()
            invariant
                i <= walls@.len(),
                out@.len() == i,
                forall|k: int| 0 <= k < i ==> is_valid_segment(#[trigger] walls@[k].line),
                forall|k: int| 0 <= k < i ==> (#[trigger] out@[k]).wf() && out@[k].line == walls@[k].line
                    && out@[k].texture_name@ == walls@[k].texture@,
            decreases walls@.len() - i,
        {
            let line = walls[i].line;
            let s = line.start;
            let e = line.end;
            if s.x < -LIMIT || s.x > LIMIT || s.y < -LIMIT || s.y > LIMIT
                || e.x < -LIMIT || e.x > LIMIT || e.y < -LIMIT || e.y > LIMIT {
                return None;
            }
            let ab = e.subtract(&s);
            proof {
                assert(ab.norm_sq() < 0x4000_0000_0000_0000_0000_0000_0000_0000) by (nonlinear_arith)
                    requires -0x8000_0000 <= ab.x <= 0x8000_0000, -0x8000_0000 <= ab.y <= 0x8000_0000,
                        ab.norm_sq() == ab.x * ab.x + ab.y * ab.y;
            }
            let length = ab.magnitude();
            proof {
                assert(length <= 0x1_0000_0000) by (nonlinear_arith)
                    requires length * length <= ab.norm_sq(), ab.norm_sq() < 0x4000_0000_0000_0000_0000_0000_0000_0000,
                        ab.norm_sq() == ab.x * ab.x + ab.y * ab.y, -0x8000_0000 <= ab.x <= 0x8000_0000,
                        -0x8000_0000 <= ab.y <= 0x8000_0000, length >= 0;
            }
            if length < ONE {
                return None;
            }
            let name = walls[i].texture.clone();
            out.push(Wall { line, length, texture_name: name, repeat_texture: length / ONE });
            i += 1;
        }
        Some(WallMap { walls: out })
    }

    /// The nearest wall that `ray` meets, if any.
    pub fn cast(&self, ray: &Ray) -> (r: Option<Hit>)
        requires
            self.wf(),
            ray.in_bounds(),
        ensures
            self.is_nearest(*ray, r),
    {
        let mut best: Option<Hit> = None;
        let mut i: usize = 0;
        while i < self.walls.len()
            invariant
                self.wf(),
                ray.in_bounds(),
                i <= self.walls@.len(),
                match best {
                    None => forall|j: int| 0 <= j < i ==> (#[trigger] self.walls@[j]).line.cast_spec(*ray) is None,
                    Some(hit) => {
                        &&& hit.wall < i
                        &&& 0 <= hit.intersec.offset <= ONE
                        &&& hit.intersec.distance >= 0
                        &&& self.walls@[hit.wall as int].line.cast_spec(*ray) == Some(hit.intersec)
                        &&& forall|j: int| 0 <= j < i && (#[trigger] self.walls@[j]).line.cast_spec(*ray) is Some
                            ==> hit.intersec.distance <= self.walls@[j].line.cast_spec(*ray).unwrap().distance
                    },
                },
            decreases self.walls@.len() - i,
        {
            assert(self.walls@[i as int].wf());
            let found = self.walls[i].line.cast(ray);
            match found {
                Some(x) => {
                    let closer = match best {
                        None => true,
                        Some(b) => x.distance < b.intersec.distance,
                    };
                    if closer {
                        best = Some(Hit { intersec: x, wall: i });
                    }
                },
                None => {},
            }
            i += 1;
        }
        best
    }
}

} // verus!
