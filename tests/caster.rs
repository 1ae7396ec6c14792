use raycaster::caster::{cast_ray, cast_rays, RayCast};
use raycaster::config::{Config, SCALE, TURN, HALF_TURN, QUARTER_TURN, THREE_QUARTER_TURN, PROBE_CELLS, FieldOfView};
use raycaster::grid::GameMap;
use raycaster::player::Player;
use raycaster::projector::{draw_walls_to_pixels, PixelBuffer, Rgb};
use raycaster::trig::TrigTable;

fn trig_table() -> TrigTable {
    let mut tan = Vec::new();
    let mut cot = Vec::new();
    let mut cos = Vec::new();
    for a in 0..TURN {
        let rad = (a as f64) * std::f64::consts::PI * 2.0 / (TURN as f64);
        let t = if a == QUARTER_TURN || a == THREE_QUARTER_TURN { 0 } else { (rad.tan() * SCALE as f64).round() as i64 };
        let c = if a == 0 || a == HALF_TURN { 0 } else { (SCALE as f64 / rad.tan()).round() as i64 };
        tan.push(t);
        cot.push(c);
        cos.push((rad.cos() * SCALE as f64).round() as i64);
    }
    TrigTable::from_tables(tan, cot, cos).expect("table in range")
}

/// An 8 x 8 map with a solid outer ring and one obstacle at row 5, column 4.
fn ring_map() -> GameMap {
    let mut cells = vec![0u8; 64];
    for i in 0..8 {
        cells[i] = 1;
        cells[56 + i] = 1;
        cells[i * 8] = 1;
        cells[i * 8 + 7] = 1;
    }
    cells[5 * 8 + 4] = 1;
    GameMap::new(8, 8, cells).unwrap()
}

fn ring_config() -> Config {
    Config {
        cell_size: 64,
        rays_count: 60,
        render_x: 60,
        render_y: 60,
        fov: FieldOfView::Normal.to_angle(),
        wall_scale: 20,
        collision_radius: 4,
    }
}

fn nearest(c: &RayCast) -> u64 {
    if c.h_dist < c.v_dist { c.h_dist } else { c.v_dist }
}

#[test]
fn ring_scenario_center_ray_and_column() {
    let map = ring_map();
    let cfg = ring_config();
    let trig = trig_table();
    let player = Player::new(200 * SCALE, 200 * SCALE);
    let mut hrays = Vec::new();
    let mut vrays = Vec::new();
    let casts = cast_rays(&map, &cfg, &trig, &player, &mut hrays, &mut vrays);
    assert_eq!(casts.len(), 60);
    assert_eq!(hrays.len(), 60);
    // The centre ray points straight along +x from (204, 204): it crosses the
    // vertical grid lines at x = 256, 320, 384 and meets the ring at x = 448.
    let center = &casts[30];
    assert_eq!(center.angle, 0);
    assert_eq!(center.v_end.x, 448 * SCALE);
    assert_eq!(center.v_end.y, 204 * SCALE);
    assert_eq!(vrays[30], 244 * SCALE as u64);
    // Parallel to the horizontal grid lines, that family only probes ahead,
    // farther than the other family can reach: the ring decides the ray.
    assert_eq!(hrays[30], (PROBE_CELLS * 64 * SCALE) as u64);
    assert_eq!(nearest(center), 244 * SCALE as u64);
    assert_eq!(center.nearest(), (244 * SCALE as u64, false));

    let horiz = Rgb { r: 120, g: 120, b: 120 };
    let vert = Rgb { r: 80, g: 80, b: 80 };
    let bg = Rgb { r: 30, g: 30, b: 60 };
    let mut pixels = PixelBuffer::new(60, 60, Rgb { r: 0, g: 0, b: 0 });
    draw_walls_to_pixels(&mut pixels, &hrays, &vrays, horiz, vert, bg, &cfg, &trig);
    // Wall slice of 20 * (30 / tan 30deg) / 244 = 4.26 px: rows 28..32.
    for y in 0..60 {
        let p = pixels.pixel(30, y);
        if y < 28 {
            assert_eq!(p, bg, "ceiling at row {}", y);
        } else if y < 32 {
            assert_eq!(p, vert, "wall at row {}", y);
        } else {
            assert_eq!(p, bg, "floor at row {}", y);
        }
    }
}

#[test]
fn ray_at_wall_face_measures_exact_distance() {
    // Cell (1, 1) of the shipped map is open and cell (2, 1) is a wall.
    let map = GameMap::world();
    let cfg = Config::standard();
    let trig = trig_table();
    let c = cast_ray(&map, &cfg, &trig, 96 * SCALE, 96 * SCALE, 0);
    assert_eq!(c.v_dist, 32 * SCALE as u64);
    assert_eq!(nearest(&c), 32 * SCALE as u64);
    // Facing down (+y) from the centre of cell (3, 1): cell (3, 2) is open,
    // (3, 3) open ... the ring lies at row 7, 7 * 64 - 96 = 352 away.
    let down = cast_ray(&map, &cfg, &trig, 224 * SCALE, 96 * SCALE, QUARTER_TURN);
    assert_eq!(down.h_end.y, 448 * SCALE);
    assert_eq!(down.h_dist, 352 * SCALE as u64);
}

#[test]
fn ray_at_left_wall_face_within_tolerance() {
    // Looking along -x from the centre of cell (1, 1): the ring face is at x = 64.
    let map = GameMap::world();
    let cfg = Config::standard();
    let trig = trig_table();
    let c = cast_ray(&map, &cfg, &trig, 96 * SCALE, 96 * SCALE, HALF_TURN);
    let expected = 32 * SCALE as u64;
    let d = nearest(&c);
    assert!(d >= expected && d - expected <= 10, "distance {}", d);
}

#[test]
fn ray_at_upper_wall_face_within_tolerance() {
    // Looking along -y from the centre of cell (1, 1): the ring face is at y = 64.
    let map = GameMap::world();
    let cfg = Config::standard();
    let trig = trig_table();
    let c = cast_ray(&map, &cfg, &trig, 96 * SCALE, 96 * SCALE, THREE_QUARTER_TURN);
    assert_eq!(c.h_dist, 32 * SCALE as u64 + 1);
    assert_eq!(c.nearest(), (32 * SCALE as u64 + 1, true));
    assert_eq!(c.v_dist, (PROBE_CELLS * 64 * SCALE) as u64);
}

#[test]
fn large_cells_face_wall_at_half_a_cell() {
    // Cells of 400 units: from the centre of cell (1, 1) of the shipped map
    // the wall in cell (2, 1) is 200 units away, beyond any fixed probe.
    let map = GameMap::world();
    let cfg = Config { cell_size: 400, ..Config::standard() };
    let trig = trig_table();
    let c = cast_ray(&map, &cfg, &trig, 600 * SCALE, 600 * SCALE, 0);
    assert_eq!(c.nearest(), (200 * SCALE as u64, false));
    let down = cast_ray(&map, &cfg, &trig, 1400 * SCALE, 600 * SCALE, QUARTER_TURN);
    assert_eq!(down.nearest(), (2200 * SCALE as u64, true));
}

#[test]
fn nearest_prefers_vertical_on_ties() {
    let p = raycaster::caster::Point { x: 0, y: 0 };
    let c = RayCast { angle: 0, h_end: p, v_end: p, h_dist: 5, v_dist: 5 };
    assert_eq!(c.nearest(), (5, false));
    let d = RayCast { h_dist: 4, ..c };
    assert_eq!(d.nearest(), (4, true));
}

#[test]
fn config_validity() {
    assert!(Config::standard().is_valid());
    assert!(ring_config().is_valid());
    assert!(!Config { fov: HALF_TURN, ..Config::standard() }.is_valid());
    assert!(!Config { cell_size: 0, ..Config::standard() }.is_valid());
    assert!(!Config { render_y: 5000, ..Config::standard() }.is_valid());
}

#[test]
fn full_turn_leaves_rays_unchanged() {
    let map = GameMap::world();
    let cfg = Config::standard();
    let trig = trig_table();
    let mut p = Player::new(300 * SCALE, 250 * SCALE);
    p.update_dir(1234);
    let (mut h1, mut v1) = (Vec::new(), Vec::new());
    let first = cast_rays(&map, &cfg, &trig, &p, &mut h1, &mut v1);
    p.update_dir(1234 + TURN as i64);
    assert_eq!(p.get_dir(), 1234);
    let (mut h2, mut v2) = (Vec::new(), Vec::new());
    let second = cast_rays(&map, &cfg, &trig, &p, &mut h2, &mut v2);
    assert_eq!(first, second);
    assert_eq!(h1, h2);
    assert_eq!(v1, v2);
}

#[test]
fn enclosed_map_distances_within_diagonal() {
    let map = GameMap::world();
    let cfg = Config::standard();
    let trig = trig_table();
    let diag = ((512.0f64 * 512.0 * 2.0).sqrt() * SCALE as f64) as u64;
    for &(x, y) in &[(70i64, 70i64), (100, 300), (330, 90), (440, 440), (260, 200)] {
        for dir in [0i64, 500, 5400, 9000, 10800, 15000, 16200, 21000] {
            let mut p = Player::new(x * SCALE, y * SCALE);
            p.update_dir(dir);
            let (mut h, mut v) = (Vec::new(), Vec::new());
            let casts = cast_rays(&map, &cfg, &trig, &p, &mut h, &mut v);
            for c in &casts {
                assert!(nearest(c) <= diag, "ray {} from ({}, {}) too long", c.angle, x, y);
            }
        }
    }
}

#[test]
fn open_map_march_stops_at_depth_cap() {
    // No walls at all: the march runs off the map and stops there.
    let map = GameMap::new(4, 4, vec![0u8; 16]).unwrap();
    let cfg = Config::standard();
    let trig = trig_table();
    let c = cast_ray(&map, &cfg, &trig, 32 * SCALE, 32 * SCALE, 0);
    assert_eq!(c.v_end.x, 256 * SCALE);
    assert_eq!(c.v_dist, 224 * SCALE as u64);
    // A map larger than the depth cap: eight steps and no further.
    let wide = GameMap::new(20, 1, vec![0u8; 20]).unwrap();
    let c = cast_ray(&wide, &cfg, &trig, 32 * SCALE, 32 * SCALE, 0);
    assert_eq!(c.v_end.x, (64 + 8 * 64) * SCALE);
}

#[test]
fn fan_spans_field_of_view() {
    let map = GameMap::world();
    let cfg = Config::standard();
    let trig = trig_table();
    let p = Player::new(200 * SCALE, 200 * SCALE);
    let (mut h, mut v) = (Vec::new(), Vec::new());
    let casts = cast_rays(&map, &cfg, &trig, &p, &mut h, &mut v);
    assert_eq!(casts.len(), 360);
    assert_eq!(casts[0].angle, TURN - 1800);
    assert_eq!(casts[180].angle, 0);
    assert_eq!(casts[359].angle, 1790);
}
