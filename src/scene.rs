use vstd::prelude::*;
use vstd::arithmetic::div_mod::*;

use crate::camera::{is_unit_like, wrap_spec, Camera};
use crate::config::{Player, Screen};
use crate::game::{Command, Direction};
use crate::map::{Hit, WallMap};
use crate::math::{fits_i64, Ray, Vector2, ONE, LIMIT};
use crate::texture::{fallback_pixels, Color, Texture};

verus! {

/// A texture under the name that walls refer to it by.
#[derive(Clone, Debug)]
pub struct NamedTexture {
    pub name: String,
    pub texture: Texture,
}

/// One drawn pixel: column and row on screen, and its colour.
pub type Pixel = ((i32, i32), Color);

/// Index of the last texture among the first `n` named `name`.
pub open spec fn last_match(s: Seq<NamedTexture>, name: Seq<char>, n: int) -> Option<int>
    decreases n,
{
    if n <= 0 {
        None
    } else if s[n - 1].name@ == name {
        Some(n - 1)
    } else {
        last_match(s, name, n - 1)
    }
}

/// Unit vector of a movement direction, from the cosine and sine of the heading.
pub open spec fn direction_vector(facing: Vector2, dir: Direction) -> Vector2 {
    match dir {
        Direction::Forward => facing,
        Direction::Backward => Vector2 { x: (-facing.x) as i64, y: (-facing.y) as i64 },
        Direction::Left => Vector2 { x: (-facing.y) as i64, y: facing.x },
        Direction::Right => Vector2 { x: facing.y, y: (-facing.x) as i64 },
    }
}

/// Displacement of a move of `speed` (fixed point) in direction `dir`.
pub open spec fn step_vector(facing: Vector2, dir: Direction, speed: int) -> Vector2 {
    let u = direction_vector(facing, dir);
    Vector2 { x: (u.x * speed / (ONE as int)) as i64, y: (u.y * speed / (ONE as int)) as i64 }
}

/// The probe ray of a move: from the position along the displacement of one tick.
pub open spec fn probe_ray(pos: Vector2, facing: Vector2, dir: Direction, speed: int) -> Ray {
    Ray { origin: pos, direction: step_vector(facing, dir, speed) }
}

/// `line` meets `ray` at a distance no greater than `radius`.
pub open spec fn hits_within(line: crate::math::Line, ray: Ray, radius: int) -> bool {
    match line.cast_spec(ray) {
        Some(i) => i.distance <= radius,
        None => false,
    }
}

/// Some wall meets the probe ray at a distance no greater than `radius`.
pub open spec fn blocked(map: WallMap, radius: int, pos: Vector2, facing: Vector2, dir: Direction, speed: int) -> bool {
    exists|j: int| 0 <= j < map.walls@.len()
        && hits_within((#[trigger] map.walls@[j]).line, probe_ray(pos, facing, dir, speed), radius)
}

/// Position, heading and its cosine and sine.
pub type Pose = (Vector2, int, Vector2);

/// The pose after one command: a move happens unless it is blocked or would leave the
/// coordinate bounds; a turn always happens.
pub open spec fn apply_command(map: WallMap, radius: int, p: Pose, c: Command) -> Pose {
    match c {
        Command::Move(dir, speed) => {
            let v = step_vector(p.2, dir, speed as int);
            let np = Vector2 { x: (p.0.x + v.x) as i64, y: (p.0.y + v.y) as i64 };
            if !blocked(map, radius, p.0, p.2, dir, speed as int) && np.in_bounds() {
                (np, p.1, p.2)
            } else {
                p
            }
        },
        Command::Look(delta, facing) => (p.0, wrap_spec(p.1 + delta), facing),
    }
}

/// The pose after the first `n` commands.
pub open spec fn apply_commands(map: WallMap, radius: int, p: Pose, cs: Seq<Command>, n: int) -> Pose
    decreases n,
{
    if n <= 0 {
        p
    } else {
        apply_command(map, radius, apply_commands(map, radius, p, cs, n - 1), cs[n - 1])
    }
}

/// Height on screen of a wall strip at distance `d`: `screen_height / d`.
pub open spec fn wall_height(h: int, d: int) -> int {
    h * ONE / d
}

/// `a / b` rounded toward zero, for a positive `b`.
pub open spec fn trunc_div(a: int, b: int) -> int {
    if a >= 0 { a / b } else { -((-a) / b) }
}

/// First row of a wall strip at distance `d`: `(h - h / d) / 2` computed with the unrounded
/// strip height, then rounded toward zero.
pub open spec fn strip_top(h: int, d: int) -> int {
    trunc_div(h * d - h * ONE, 2 * d)
}

/// Coarse texture column for a hit at fraction `offset` along a wall whose texture tiles
/// `repeat` times: the fractional part of `offset * repeat`, scaled to `[0, 255]`.
pub open spec fn texture_x(offset: int, repeat: int) -> int {
    ((offset * repeat) % (ONE as int)) * 255 / (ONE as int)
}

/// Coordinates within the range of an `i32`.
pub open spec fn fits_i32(v: int) -> bool {
    i32::MIN <= v <= i32::MAX
}

/// Ties camera, walls and textures together.
#[derive(Clone, Debug)]
pub struct Scene {
    pub screen: Screen,
    pub player: Player,
    pub camera: Camera,
    pub map: WallMap,
    pub default_texture: Texture,
    /// Textures by name. Names need not be unique: a lookup takes the last entry with the
    /// name, as inserting them in order into a map keyed by name would keep.
    pub textures: Vec<NamedTexture>,
}

impl Scene {
    pub open spec fn wf(&self) -> bool {
        &&& self.camera.wf()
        &&& self.map.wf()
        &&& self.default_texture.wf()
        &&& forall|i: int| 0 <= i < self.textures@.len() ==> (#[trigger] self.textures@[i]).texture.wf()
        &&& 1 <= self.screen.height <= 32767
        &&& self.camera.rotated_rays@.len() <= 32767
    }

    pub open spec fn pose(&self) -> Pose {
        (self.camera.pos, self.camera.angle_deg as int, self.camera.facing)
    }

    /// The texture a wall names: the last one under that name, else the default.
    pub open spec fn texture_spec(&self, name: Seq<char>) -> Texture {
        match last_match(self.textures@, name, self.textures@.len() as int) {
            Some(i) => self.textures@[i].texture,
            None => self.default_texture,
        }
    }

    /// The pixels drawn for column `x` when its ray hits as `hit`.
    pub open spec fn column_spec(&self, x: int, hit: Hit) -> Seq<Pixel> {
        let h = self.screen.height as int;
        let d = hit.intersec.distance as int;
        if 0 < d < h * ONE {
            let wall = self.map.walls@[hit.wall as int];
            let wh = wall_height(h, d);
            let top = strip_top(h, d);
            let tex = self.texture_spec(wall.texture_name@);
            let line = tex.line_spec(texture_x(hit.intersec.offset as int, wall.repeat_texture as int) as u8, wh as nat);
            Seq::new(wh as nat, |i: int| ((x as i32, (top + i) as i32), line[i]))
        } else {
            Seq::empty()
        }
    }

    /// The pixels drawn for the first `n` columns.
    pub open spec fn frame_spec(&self, hits: Seq<Option<Hit>>, n: int) -> Seq<Pixel>
        decreases n,
    {
        if n <= 0 {
            Seq::empty()
        } else {
            self.frame_spec(hits, n - 1) + match hits[n - 1] {
                Some(hit) => self.column_spec(n - 1, hit),
                None => Seq::empty(),
            }
        }
    }

    /// `hits` is what the camera sees: the nearest hit of every ray of the fan.
    pub open spec fn sees(&self, hits: Seq<Option<Hit>>) -> bool {
        &&& hits.len() == self.camera.rotated_rays@.len()
        &&& forall|i: int| 0 <= i < hits.len() ==> self.map.is_nearest(self.camera.rotated_rays@[i], #[trigger] hits[i])
    }

    pub fn new(
        screen: Screen,
        player: Player,
        camera: Camera,
        map: WallMap,
        textures: Vec<NamedTexture>,
    ) -> (s: Scene)
        requires
            camera.wf(),
            map.wf(),
            forall|i: int| 0 <= i < textures@.len() ==> (#[trigger] textures@[i]).texture.wf(),
            1 <= screen.height <= 32767,
            camera.rotated_rays@.len() <= 32767,
        ensures
            s.wf(),
            s.screen == screen,
            s.player == player,
            s.camera == camera,
            s.map == map,
            s.textures@ == textures@,
            s.default_texture.width == 2,
            s.default_texture.height == 2,
            s.default_texture.pixels@ == fallback_pixels(),
    {
        Scene { screen, player, camera, map, default_texture: Texture::fallback(), textures }
    }

    /// The texture named `name`, falling back to the default.
    pub fn texture_for(&self, name: &String) -> (r: &Texture)
        requires
            self.wf(),
        ensures
            *r == self.texture_spec(name@),
            r.wf(),
    {
        let mut j: usize = self.textures.len();
        while j > 0
            invariant
                self.wf(),
                j <= self.textures@.len(),
                last_match(self.textures@, name@, self.textures@.len() as int)
                    == last_match(self.textures@, name@, j as int),
            decreases j,
        {
            if self.textures[j - 1].name == *name {
                return &self.textures[j - 1].texture;
            }
            j -= 1;
        }
        &self.default_texture
    }

    fn step(&self, dir: Direction, speed: i64) -> (v: Vector2)
        requires
            self.wf(),
            -LIMIT <= speed <= LIMIT,
        ensures
            v == step_vector(self.camera.facing, dir, speed as int),
            v.in_bounds(),
    {
        let u = match dir {
            Direction::Forward => self.camera.forward(),
            Direction::Backward => self.camera.backward(),
            Direction::Left => self.camera.left(),
            Direction::Right => self.camera.right(),
        };
        proof {
            let k = ONE as int;
            assert(-LIMIT * k <= u.x * speed <= LIMIT * k) by (nonlinear_arith)
                requires -k <= u.x <= k, -LIMIT <= speed <= LIMIT, k > 0;
            assert(-LIMIT * k <= u.y * speed <= LIMIT * k) by (nonlinear_arith)
                requires -k <= u.y <= k, -LIMIT <= speed <= LIMIT, k > 0;
            lemma_div_is_ordered(-LIMIT * k, u.x * speed, k);
            lemma_div_is_ordered(u.x * speed, LIMIT * k, k);
            lemma_div_is_ordered(-LIMIT * k, u.y * speed, k);
            lemma_div_is_ordered(u.y * speed, LIMIT * k, k);
            assert(-LIMIT * k == k * (-LIMIT)) by (nonlinear_arith);
            assert(LIMIT * k == k * LIMIT) by (nonlinear_arith);
            lemma_div_multiples_vanish(-LIMIT as int, k);
            lemma_div_multiples_vanish(LIMIT as int, k);
        }
        u.multiply(speed)
    }

    /// Whether a move of `speed` towards `dir` is allowed: it is refused when a wall meets
    /// the probe ray at a distance no greater than the collision radius.
    pub fn can_move(&self, dir: Direction, speed: i64) -> (r: bool)
        requires
            self.wf(),
            -LIMIT <= speed <= LIMIT,
        ensures
            r == !blocked(self.map, self.player.collision_radius as int, self.camera.pos,
                self.camera.facing, dir, speed as int),
    {
        let v = self.step(dir, speed);
        let probe = Ray::new(self.camera.pos, v);
        let hit = self.map.cast(&probe);
        let ghost pr = probe_ray(self.camera.pos, self.camera.facing, dir, speed as int);
        assert(probe == pr);
        match hit {
            Some(h) => {
                let r = h.intersec.distance > self.player.collision_radius;
                proof {
                    if !r {
                        assert(hits_within(self.map.walls@[h.wall as int].line, pr, self.player.collision_radius as int));
                    } else {
                        assert forall|j: int| 0 <= j < self.map.walls@.len() implies
                            !hits_within((#[trigger] self.map.walls@[j]).line, pr, self.player.collision_radius as int) by {
                            if self.map.walls@[j].line.cast_spec(pr) is Some {
                            }
                        }
                    }
                }
                r
            },
            None => {
                proof {
                    assert forall|j: int| 0 <= j < self.map.walls@.len() implies
                        !hits_within((#[trigger] self.map.walls@[j]).line, pr, self.player.collision_radius as int) by {
                    }
                }
                true
            },
        }
    }

    /// Applies one tick of commands in order; each move is checked against the walls first.
    pub fn handle_inputs(&mut self, inputs: &Vec<Command>)
        requires
            old(self).wf(),
            forall|i: int| 0 <= i < inputs@.len() ==> (#[trigger] inputs@[i]).is_valid(),
        ensures
            final(self).wf(),
            final(self).pose() == apply_commands(old(self).map, old(self).player.collision_radius as int,
                old(self).pose(), inputs@, inputs@.len() as int),
            final(self).map == old(self).map,
            final(self).screen == old(self).screen,
            final(self).player == old(self).player,
            final(self).textures@ == old(self).textures@,
            final(self).default_texture == old(self).default_texture,
            final(self).camera.initial_rays@ == old(self).camera.initial_rays@,
    {
        let ghost start = self.pose();
        let mut i: usize = 0;
        while i < inputs.len()
            invariant
                self.wf(),
                i <= inputs@.len(),
                forall|k: int| 0 <= k < inputs@.len() ==> (#[trigger] inputs@[k]).is_valid(),
                self.pose() == apply_commands(self.map, self.player.collision_radius as int, start, inputs@, i as int),
                self.map == old(self).map,
                self.screen == old(self).screen,
                self.player == old(self).player,
                self.textures@ == old(self).textures@,
                self.camera.initial_rays@ == old(self).camera.initial_rays@,
                self.default_texture == old(self).default_texture,
            decreases inputs@.len() - i,
        {
            let c = inputs[i];
            assert(c.is_valid());
            match c {
                Command::Move(dir, speed) => {
                    if self.can_move(dir, speed) {
                        let v = self.step(dir, speed);
                        let p = self.camera.pos;
                        let nx = p.x + v.x;
                        let ny = p.y + v.y;
                        if -LIMIT <= nx && nx <= LIMIT && -LIMIT <= ny && ny <= LIMIT {
                            self.camera.translate(&v);
                        }
                    }
                },
                Command::Look(delta, facing) => {
                    self.camera.rotate(delta, facing);
                },
            }
            i += 1;
        }
    }

    /// The pixels drawn for column `x` when its ray hits as `hit`: nothing when the wall is
    /// too close or too far, else a vertically centred strip of the wall's texture.
    pub fn column_pixels(&self, x: u32, hit: &Hit) -> (r: Vec<Pixel>)
        requires
            self.wf(),
            x <= 32767,
            hit.wall < self.map.walls@.len(),
            0 <= hit.intersec.offset <= ONE,
        ensures
            r@ == self.column_spec(x as int, *hit),
    {
        let h: i64 = self.screen.height as i64;
        let d: i64 = hit.intersec.distance;
        if d <= 0 || d >= h * ONE {
            return Vec::new();
        }
        let wh: i64 = h * ONE / d;
        proof {
            lemma_div_is_ordered(d as int, h * ONE, d as int);
            lemma_div_by_self(d as int);
            lemma_div_is_ordered_by_denominator(h * ONE, 1, d as int);
            lemma_div_basics(h * ONE);
            assert(1 <= wh <= h * ONE);
        }
        proof {
            assert(0 < h * d < 0x1_0000_0000_0000) by (nonlinear_arith)
                requires 1 <= h <= 32767, 0 < d < h * ONE;
        }
        let num: i64 = h * d - h * ONE;
        let mag: i64 = if num >= 0 { num } else { -num };
        proof {
            lemma_div_is_ordered_by_denominator(mag as int, 1, 2 * d);
            lemma_div_basics(mag as int);
            lemma_div_pos_is_pos(mag as int, 2 * d);
        }
        let top: i64 = if num >= 0 { mag / (2 * d) } else { -(mag / (2 * d)) };
        let wall = &self.map.walls[hit.wall];
        assert(wall.wf());
        let tex = self.texture_for(&wall.texture_name);
        let rep: i64 = wall.repeat_texture;
        proof {
            lemma_div_is_ordered(wall.length as int, 0x1_0000_0000, ONE as int);
            lemma_div_pos_is_pos(wall.length as int, ONE as int);
            assert(0 <= hit.intersec.offset * rep <= 0x1_0000 * 0x1_0000) by (nonlinear_arith)
                requires 0 <= hit.intersec.offset <= 0x1_0000, 0 <= rep <= 0x1_0000;
        }
        let frac: i64 = (hit.intersec.offset * rep) % ONE;
        proof {
            lemma_mod_bound((hit.intersec.offset * rep) as int, ONE as int);
            lemma_div_is_ordered(frac * 255, ONE * 255, ONE as int);
            lemma_div_pos_is_pos(frac * 255, ONE as int);
            lemma_div_multiples_vanish(255, ONE as int);
            assert(ONE * 255 == (ONE as int) * 255);
        }
        let tx: i64 = frac * 255 / ONE;
        let line = tex.get_line(tx as u8, wh as u32);
        let ghost col = self.column_spec(x as int, *hit);
        let mut out: Vec<Pixel> = Vec::new();
        let mut i: i64 = 0;
        while i < wh
            invariant
                0 <= i <= wh,
                1 <= wh <= h * ONE,
                1 <= h <= 32767,
                top == strip_top(h as int, d as int),
                -0x1_0000_0000_0000 <= top <= 0x1_0000_0000_0000,
                line@.len() == wh,
                col.len() == wh,
                forall|k: int| 0 <= k < wh ==> #[trigger] col[k] == ((x as i32, (top + k) as i32), line@[k]),
                out@ =~= col.take(i as int),
            decreases wh - i,
        {
            let row: i64 = top + i;
            out.push(((x as i32, row as i32), line[i as usize]));
            i += 1;
        }
        assert(col.take(wh as int) =~= col);
        out
    }

    /// The pixels drawn for a frame whose columns hit as `hits`.
    pub fn render_frame(&self, hits: &Vec<Option<Hit>>) -> (r: Vec<Pixel>)
        requires
            self.wf(),
            hits@.len() <= 32767,
            forall|i: int| 0 <= i < hits@.len() ==> (#[trigger] hits@[i] matches Some(h) ==> h.wall < self.map.walls@.len()
                && 0 <= h.intersec.offset <= ONE),
        ensures
            r@ == self.frame_spec(hits@, hits@.len() as int),
    {
        let mut out: Vec<Pixel> = Vec::new();
        let mut x: usize = 0;
        while x < hits.len()
            invariant
                self.wf(),
                x <= hits@.len() <= 32767,
                forall|i: int| 0 <= i < hits@.len() ==> (#[trigger] hits@[i] matches Some(h) ==> h.wall < self.map.walls@.len()
                    && 0 <= h.intersec.offset <= ONE),
                out@ == self.frame_spec(hits@, x as int),
            decreases hits@.len() - x,
        {
            let mut col = match hits[x] {
                Some(h) => self.column_pixels(x as u32, &h),
                None => Vec::new(),
            };
            out.append(&mut col);
            x += 1;
        }
        out
    }

    /// The frame as the camera sees it now.
    pub fn get_frame(&self) -> (r: Vec<Pixel>)
        requires
            self.wf(),
        ensures
            exists|hits: Seq<Option<Hit>>| #[trigger] self.sees(hits) && r@ == self.frame_spec(hits, hits.len() as int),
    {
        let hits = self.camera.compute_frame(&self.map);
        let r = self.render_frame(&hits);
        assert(self.sees(hits@));
        r
    }
}

} // verus!
