use raycaster::config::{Config, SCALE, TURN, HALF_TURN, QUARTER_TURN, THREE_QUARTER_TURN};
use raycaster::grid::GameMap;
use raycaster::movement::{apply_input, try_move_player, turn_player, Keys, TURN_STEP};
use raycaster::overlay::{build_overlay, map_squares, Square};
use raycaster::caster::cast_rays;
use raycaster::player::Player;
use raycaster::projector::Rgb;
use raycaster::trig::TrigTable;

fn movement_trig() -> TrigTable {
    let mut tan = Vec::new();
    let mut cot = Vec::new();
    let mut cos = Vec::new();
    for a in 0..TURN {
        let rad = (a as f64) * std::f64::consts::PI * 2.0 / (TURN as f64);
        let t = if a == QUARTER_TURN || a == THREE_QUARTER_TURN { 0 } else { (rad.tan() * SCALE as f64).round() as i64 };
        let c = if a == 0 || a == HALF_TURN { 0 } else { (SCALE as f64 / rad.tan()).round() as i64 };
        tan.push(t);
        cot.push(c);
        cos.push((rad.cos() * SCALE as f64).round() as i64);
    }
    TrigTable::from_tables(tan, cot, cos).unwrap()
}

#[test]
fn move_into_open_cell() {
    let map = GameMap::world();
    let cfg = Config::standard();
    let mut p = Player::new(90 * SCALE, 200 * SCALE);
    try_move_player(&mut p, &map, &cfg, 0, 3 * SCALE);
    assert_eq!((p.x_pos, p.y_pos), (90 * SCALE, 203 * SCALE));
}

#[test]
fn move_into_wall_snaps_to_edge() {
    let map = GameMap::world();
    let cfg = Config::standard();
    // Column 2 is a wall from row 0 to row 5; walking +x from x = 119 brings the right edge past x = 128.
    let mut p = Player::new(119 * SCALE, 200 * SCALE);
    try_move_player(&mut p, &map, &cfg, 2 * SCALE, 0);
    assert_eq!(p.x_pos, 128 * SCALE - 8 * SCALE - 100);
    assert_eq!(p.y_pos, 200 * SCALE);
    // Walking -x into the ring at column 0 snaps just right of it.
    let mut q = Player::new(65 * SCALE, 200 * SCALE);
    try_move_player(&mut q, &map, &cfg, -2 * SCALE, 0);
    assert_eq!(q.x_pos, 64 * SCALE + 100);
}

#[test]
fn move_off_map_is_refused() {
    let map = GameMap::world();
    let cfg = Config::standard();
    let mut p = Player::new(600 * SCALE, 100 * SCALE);
    try_move_player(&mut p, &map, &cfg, SCALE, 0);
    assert_eq!(p.x_pos, 600 * SCALE);
}

#[test]
fn move_from_off_map_into_open_cell() {
    let map = GameMap::world();
    let cfg = Config::standard();
    // Cell (4, 1) is open: the player walks in from beyond the right edge.
    let mut p = Player::new(600 * SCALE, 100 * SCALE);
    try_move_player(&mut p, &map, &cfg, -300 * SCALE, 0);
    assert_eq!((p.x_pos, p.y_pos), (300 * SCALE, 100 * SCALE));
    // Cell (2, 1) is a wall, and a player off the map cannot be snapped to it.
    let mut q = Player::new(600 * SCALE, 100 * SCALE);
    try_move_player(&mut q, &map, &cfg, -470 * SCALE, 0);
    assert_eq!((q.x_pos, q.y_pos), (600 * SCALE, 100 * SCALE));
}

#[test]
fn new_player_walks_forward_at_once() {
    let map = GameMap::world();
    let cfg = Config::standard();
    let trig = movement_trig();
    let mut p = Player::new(90 * SCALE, 200 * SCALE);
    assert_eq!((p.get_x_dir(), p.get_y_dir()), (SCALE, 0));
    let keys = Keys { turn_left: false, turn_right: false, forward: true, backward: false };
    apply_input(&mut p, &map, &cfg, &trig, keys);
    assert_eq!((p.x_pos, p.y_pos), (90 * SCALE + 11000, 200 * SCALE));
}

#[test]
fn turning_sets_direction_vector() {
    let trig = movement_trig();
    let mut p = Player::new(100 * SCALE, 100 * SCALE);
    turn_player(&mut p, &trig, QUARTER_TURN as i64);
    assert_eq!(p.get_dir(), QUARTER_TURN);
    assert_eq!(p.get_x_dir(), 0);
    assert_eq!(p.get_y_dir(), SCALE);
    turn_player(&mut p, &trig, -(TURN as i64));
    assert_eq!(p.get_dir(), QUARTER_TURN);
    turn_player(&mut p, &trig, -(QUARTER_TURN as i64) - 1);
    assert_eq!(p.get_dir(), TURN - 1);
}

#[test]
fn input_turns_then_walks() {
    let map = GameMap::world();
    let cfg = Config::standard();
    let trig = movement_trig();
    let mut p = Player::new(90 * SCALE, 200 * SCALE);
    let keys = Keys { turn_left: false, turn_right: true, forward: true, backward: false };
    apply_input(&mut p, &map, &cfg, &trig, keys);
    assert_eq!(p.get_dir(), TURN_STEP as u32);
    // cos(103') = 0.99955 -> 9996, sin(103') = 0.02996 -> 300; a stride is 1.1 of each.
    assert_eq!(p.get_x_dir(), 9996);
    assert_eq!(p.get_y_dir(), 300);
    assert_eq!(p.x_pos, 90 * SCALE + 10995);
    assert_eq!(p.y_pos, 200 * SCALE + 330);
    let none = Keys { turn_left: false, turn_right: false, forward: false, backward: false };
    let before = p;
    apply_input(&mut p, &map, &cfg, &trig, none);
    assert_eq!(p, before);
    let back = Keys { turn_left: false, turn_right: false, forward: false, backward: true };
    apply_input(&mut p, &map, &cfg, &trig, back);
    assert_eq!(p.x_pos, 90 * SCALE);
    assert_eq!(p.y_pos, 200 * SCALE);
}

#[test]
fn overlay_geometry() {
    let map = GameMap::world();
    let cfg = Config::standard();
    let trig = movement_trig();
    let mut p = Player::new(200 * SCALE, 200 * SCALE);
    p.update_x_dir(SCALE);
    let squares = map_squares(&map, &cfg);
    assert_eq!(squares.len(), 64);
    let s = 64 * SCALE;
    assert_eq!(squares[9], Square::new(1, 1, Rgb { r: 0, g: 0, b: 0 }, &cfg));
    assert_eq!(squares[10].get_color(), Rgb { r: 255, g: 255, b: 255 });
    let v = squares[10].get_vertices();
    assert_eq!((v[0].x, v[0].y), (2 * s, s));
    assert_eq!((v[3].x, v[3].y), (3 * s, 2 * s));
    let (mut h, mut vr) = (Vec::new(), Vec::new());
    let casts = cast_rays(&map, &cfg, &trig, &p, &mut h, &mut vr);
    let o = build_overlay(&map, &cfg, &p, &casts);
    assert_eq!(o.rays.len(), 720);
    assert_eq!(o.heading.from.x, 204 * SCALE);
    assert_eq!(o.heading.to.x, 224 * SCALE);
    assert_eq!(o.heading.to.y, 204 * SCALE);
    assert_eq!(o.rays[1].to, casts[0].v_end);
    assert_eq!(o.player_quad[3].x, 208 * SCALE);
}
