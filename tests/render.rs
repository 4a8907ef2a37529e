use rayna::camera::{fan_angles, wrap_degrees, Camera, FULL_TURN};
use rayna::config::{Player, Screen, WallConfig};
use rayna::game::{Command, Direction};
use rayna::map::{Hit, WallMap};
use rayna::math::{Intersection, Line, Ray, Vector2, ONE};
use rayna::scene::{NamedTexture, Scene};
use rayna::texture::{Color, Texture};

fn fx(v: f32) -> i64 {
    (v * ONE as f32).round() as i64
}

fn v(x: f32, y: f32) -> Vector2 {
    Vector2::new(fx(x), fx(y))
}

fn wall(texture: &str, a: (f32, f32), b: (f32, f32)) -> WallConfig {
    WallConfig { texture: texture.to_string(), line: Line { start: v(a.0, a.1), end: v(b.0, b.1) } }
}

fn gray(level: u8) -> Color {
    Color::new(level, level, level, 255)
}

/// A 2 x 3 texture whose pixel at column c, row r is gray(10 * r + c).
fn small_texture() -> Texture {
    let mut raw = Vec::new();
    for r in 0..3u8 {
        for c in 0..2u8 {
            let g = gray(10 * r + c);
            raw.extend_from_slice(&[g.r, g.g, g.b, g.a]);
        }
    }
    Texture::from_rgba(2, 3, &raw).unwrap()
}

fn camera_at_origin() -> Camera {
    Camera::new(v(0.0, 0.0), 0, Vector2::new(ONE, 0), vec![Vector2::new(ONE, 0)])
}

fn corridor() -> WallMap {
    WallMap::from_lines(vec![
        wall("brick", (3.0, -1.0), (3.0, 1.0)),
        wall("stone", (1.0, -1.0), (1.0, 1.0)),
        wall("brick", (-2.0, -1.0), (-2.0, 1.0)),
    ])
    .unwrap()
}

fn scene(radius: f32) -> Scene {
    Scene::new(
        Screen { width: 1, height: 100 },
        Player { look_speed: fx(90.0), move_speed: fx(1.0), collision_radius: fx(radius) },
        camera_at_origin(),
        corridor(),
        vec![NamedTexture { name: "stone".to_string(), texture: small_texture() }],
    )
}

#[test]
fn column_at_zero_height_is_empty() {
    assert!(small_texture().get_line(0, 0).is_empty());
}

#[test]
fn column_at_source_height_is_unscaled() {
    let t = small_texture();
    assert_eq!(t.get_line(0, 3), vec![gray(0), gray(10), gray(20)]);
    assert_eq!(t.get_line(200, 3), vec![gray(1), gray(11), gray(21)]);
}

#[test]
fn column_is_resampled_by_nearest_neighbour() {
    let t = small_texture();
    assert_eq!(t.get_line(0, 6), vec![gray(0), gray(0), gray(10), gray(10), gray(20), gray(20)]);
    assert_eq!(t.get_line(0, 2), vec![gray(0), gray(10)]);
    assert_eq!(t.get_line(0, 1), vec![gray(0)]);
}

#[test]
fn column_index_is_clamped() {
    let t = small_texture();
    assert_eq!(t.get_line(255, 1), vec![gray(1)]);
    assert_eq!(t.get_line(127, 1), vec![gray(0)]);
    assert_eq!(t.get_line(128, 1), vec![gray(1)]);
}

#[test]
fn texture_from_rgba_checks_sizes() {
    assert!(Texture::from_rgba(2, 3, &vec![0u8; 23]).is_err());
    assert!(Texture::from_rgba(0, 0, &vec![]).is_err());
    assert!(Texture::from_rgba(1, 0, &vec![]).is_err());
    let t = Texture::from_rgba(1, 1, &vec![1, 2, 3, 4]).unwrap();
    assert_eq!(t.pixels, vec![Color::new(1, 2, 3, 4)]);
}

#[test]
fn fallback_texture_is_checker() {
    let t = Texture::fallback();
    assert_eq!((t.width, t.height), (2, 2));
    let violet = Color::new(135, 60, 190, 255);
    let black = Color::new(0, 0, 0, 255);
    assert_eq!(t.pixels, vec![violet, black, black, violet]);
}

#[test]
fn map_derives_length_and_repeat() {
    let m = WallMap::from_lines(vec![wall("a", (0.0, 0.0), (3.0, 4.0)), wall("b", (0.0, 0.0), (0.0, 2.5))]).unwrap();
    assert_eq!(m.walls[0].length, fx(5.0));
    assert_eq!(m.walls[0].repeat_texture, 5);
    assert_eq!(m.walls[0].texture_name, "a");
    assert_eq!(m.walls[1].length, fx(2.5));
    assert_eq!(m.walls[1].repeat_texture, 2);
}

#[test]
fn map_rejects_degenerate_walls() {
    assert!(WallMap::from_lines(vec![wall("a", (0.0, 0.0), (0.5, 0.0))]).is_none());
    assert!(WallMap::from_lines(vec![wall("a", (0.0, 0.0), (20000.0, 0.0))]).is_none());
    assert!(WallMap::from_lines(vec![]).is_some());
}

#[test]
fn map_cast_returns_nearest_wall() {
    let m = corridor();
    let hit = m.cast(&Ray::new(v(0.0, 0.0), v(1.0, 0.0))).unwrap();
    assert_eq!(hit.wall, 1);
    assert_eq!(hit.intersec.distance, fx(1.0));
    let hit = m.cast(&Ray::new(v(0.0, 0.0), v(-1.0, 0.0))).unwrap();
    assert_eq!(hit.wall, 2);
    assert_eq!(hit.intersec.distance, fx(2.0));
    assert!(m.cast(&Ray::new(v(0.0, 0.0), v(0.0, 1.0))).is_none());
}

#[test]
fn heading_wraps_once() {
    assert_eq!(wrap_degrees(fx(361.0)), fx(1.0));
    assert_eq!(wrap_degrees(fx(360.0)), 0);
    assert_eq!(wrap_degrees(fx(-1.0)), fx(359.0));
    assert_eq!(wrap_degrees(fx(45.0)), fx(45.0));
    assert_eq!(FULL_TURN, fx(360.0));
}

#[test]
fn fan_spans_field_of_view() {
    assert_eq!(fan_angles(90, 3), vec![fx(45.0), 0, fx(315.0)]);
    assert_eq!(fan_angles(60, 2), vec![fx(30.0), fx(330.0)]);
}

#[test]
fn camera_rotate_wraps_and_turns_rays() {
    let mut c = camera_at_origin();
    c.rotate(fx(-90.0), Vector2::new(0, -ONE));
    assert_eq!(c.angle_deg, fx(270.0));
    assert_eq!(c.rotated_rays[0].direction, Vector2::new(0, -ONE));
    c.rotate(fx(180.0), Vector2::new(0, ONE));
    assert_eq!(c.angle_deg, fx(90.0));
    assert_eq!(c.rotated_rays[0].direction, Vector2::new(0, ONE));
}

#[test]
fn camera_translate_moves_rays() {
    let mut c = camera_at_origin();
    c.translate(&v(1.5, -2.0));
    assert_eq!(c.pos, v(1.5, -2.0));
    assert_eq!(c.rotated_rays[0].origin, v(1.5, -2.0));
    assert_eq!(c.rotated_rays[0].direction, v(1.0, 0.0));
}

#[test]
fn camera_direction_helpers() {
    let c = Camera::new(v(0.0, 0.0), fx(90.0), Vector2::new(0, ONE), vec![]);
    assert_eq!(c.forward(), Vector2::new(0, ONE));
    assert_eq!(c.backward(), Vector2::new(0, -ONE));
    assert_eq!(c.left(), Vector2::new(-ONE, 0));
    assert_eq!(c.right(), Vector2::new(ONE, 0));
}

#[test]
fn camera_frame_has_one_entry_per_column() {
    let c = Camera::new(v(0.0, 0.0), 0, Vector2::new(ONE, 0), vec![Vector2::new(ONE, 0), Vector2::new(0, ONE)]);
    let frame = c.compute_frame(&corridor());
    assert_eq!(frame.len(), 2);
    assert_eq!(frame[0].unwrap().wall, 1);
    assert!(frame[1].is_none());
}

#[test]
fn collision_blocks_at_radius() {
    // The probe ray of a move of one unit meets the wall at x = 1 at distance one.
    assert!(!scene(1.0).can_move(Direction::Forward, fx(1.0)));
    assert!(scene(0.99).can_move(Direction::Forward, fx(1.0)));
    assert!(scene(1.0).can_move(Direction::Left, fx(1.0)));
    assert!(!scene(2.0).can_move(Direction::Backward, fx(1.0)));
}

#[test]
fn inputs_move_and_turn() {
    let mut s = scene(0.5);
    s.handle_inputs(&vec![
        Command::Move(Direction::Forward, fx(0.5)),
        Command::Look(fx(-30.0), Vector2::new(fx(0.8660254), fx(-0.5))),
    ]);
    assert_eq!(s.camera.pos, v(0.5, 0.0));
    assert_eq!(s.camera.angle_deg, fx(330.0));
    assert_eq!(s.camera.facing, Vector2::new(fx(0.8660254), fx(-0.5)));
    // Now half a unit from the wall, which is within the collision radius: the move is refused.
    let before = s.camera.pos;
    s.handle_inputs(&vec![
        Command::Look(fx(30.0), Vector2::new(ONE, 0)),
        Command::Move(Direction::Forward, fx(0.5)),
    ]);
    assert_eq!(s.camera.pos, before);
    assert_eq!(s.camera.angle_deg, 0);
}

#[test]
fn texture_lookup_falls_back() {
    let s = scene(0.25);
    assert_eq!(s.texture_for(&"stone".to_string()).width, 2);
    assert_eq!(s.texture_for(&"stone".to_string()).height, 3);
    assert_eq!(s.texture_for(&"brick".to_string()).pixels, Texture::fallback().pixels);
}

#[test]
fn column_is_projected_and_centred() {
    let s = scene(0.25);
    let hit = Hit { intersec: Intersection { distance: fx(2.0), position: v(2.0, 0.0), offset: fx(0.5) }, wall: 1 };
    let px = s.column_pixels(7, &hit);
    // height 100 at distance 2: a strip of 50 rows starting at row 25.
    assert_eq!(px.len(), 50);
    assert_eq!(px[0].0, (7, 25));
    assert_eq!(px[49].0, (7, 74));
    // The wall is two units long, so the texture tiles twice; offset 0.5 is the start of a
    // tile, which is source column 0.
    assert_eq!(px[0].1, gray(0));
    assert_eq!(px[49].1, gray(20));
}

#[test]
fn strip_top_uses_unrounded_height() {
    let s = scene(0.25);
    // 100 / (191626 / 65536) = 34.19998: 34 rows from row trunc((100 - 34.19998) / 2) = 32.
    let hit = Hit { intersec: Intersection { distance: 191626, position: v(2.9, 0.0), offset: 0 }, wall: 1 };
    let px = s.column_pixels(3, &hit);
    assert_eq!(px.len(), 34);
    assert_eq!(px[0].0, (3, 32));
    assert_eq!(px[33].0, (3, 65));
}

#[test]
fn camera_rotate_wraps_large_turns_once() {
    let mut c = camera_at_origin();
    c.rotate(fx(10.0), Vector2::new(ONE, 0));
    c.rotate(fx(500.0), Vector2::new(ONE, 0));
    assert_eq!(c.angle_deg, fx(150.0));
    c.rotate(fx(-400.0), Vector2::new(ONE, 0));
    assert_eq!(c.angle_deg, fx(110.0));
}

#[test]
fn scene_default_texture_is_checker() {
    let s = scene(0.25);
    assert_eq!(s.default_texture.pixels, Texture::fallback().pixels);
    assert_eq!((s.default_texture.width, s.default_texture.height), (2, 2));
}

#[test]
fn column_is_dropped_when_too_close_or_far() {
    let s = scene(0.25);
    let at = |d: i64| Hit { intersec: Intersection { distance: d, position: v(0.0, 0.0), offset: 0 }, wall: 1 };
    assert!(s.column_pixels(0, &at(0)).is_empty());
    assert!(s.column_pixels(0, &at(fx(100.0))).is_empty());
    assert_eq!(s.column_pixels(0, &at(fx(99.0))).len(), 1);
}

#[test]
fn close_wall_strip_extends_past_screen() {
    let s = scene(0.25);
    let hit = Hit { intersec: Intersection { distance: fx(0.5), position: v(0.5, 0.0), offset: fx(0.875) }, wall: 1 };
    let px = s.column_pixels(0, &hit);
    assert_eq!(px.len(), 200);
    assert_eq!(px[0].0, (0, -50));
    // Offset 0.875 on a wall tiled twice is three quarters through a tile: texture column 1.
    assert_eq!(px[0].1, gray(1));
}

#[test]
fn frame_draws_visible_columns() {
    let s = scene(0.25);
    let frame = s.get_frame();
    // One column, wall at distance one: a strip of the full screen height.
    assert_eq!(frame.len(), 100);
    assert_eq!(frame[0].0, (0, 0));
    let rendered = s.render_frame(&vec![None, None]);
    assert!(rendered.is_empty());
}
