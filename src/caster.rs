use vstd::prelude::*;
use crate::config::{
    Config, SCALE, TURN, HALF_TURN, QUARTER_TURN, THREE_QUARTER_TURN, MAX_DEPTH, PROBE_CELLS,
    EPSILON, STEP_LIMIT, ORIGIN_LIMIT, START_LIMIT,
};
use crate::fixed::{
    floor_div, distance, dist_sq, is_floor_sqrt, REACH_LIMIT, lemma_floor_sqrt_unique,
    lemma_floor_sqrt_square,
};
use crate::grid::GameMap;
use crate::trig::{TrigTable, abs, norm_angle, normalize_angle};
use crate::player::Player;

verus! {

#[derive(Clone, Copy, Debug, PartialEq, Eq, Structural)]
pub struct Point {
    pub x: i64,
    pub y: i64,
}

/// The two marches of one ray: where each stopped and how far that is from
/// the origin.
#[derive(Clone, Copy, Debug, PartialEq, Eq, Structural)]
pub struct RayCast {
    pub angle: u32,
    pub h_end: Point,
    pub v_end: Point,
    pub h_dist: u64,
    pub v_dist: u64,
}

impl RayCast {
    /// The distance of the cast, and whether the horizontal-line march
    /// produced it (ties go to the vertical-line march).
    pub fn nearest(&self) -> (r: (u64, bool))
        ensures
            r.0 == cast_distance(*self),
            r.1 == (self.h_dist < self.v_dist),
    {
        if self.h_dist < self.v_dist {
            (self.h_dist, true)
        } else {
            (self.v_dist, false)
        }
    }
}

/// A march state: position, per-step offset, and steps already taken.
pub type MarchState = (int, int, int, int, int);

/// The march stops at `(x, y)`: its cell lies off the map or is a wall.
pub open spec fn stops_at(map: GameMap, s: int, x: int, y: int) -> bool {
    !map.in_bounds(x / s, y / s) || map.wall_at(x / s, y / s)
}

/// Where a march that starts at `(x, y)` after `depth` steps comes to rest.
pub open spec fn march(map: GameMap, s: int, x: int, y: int, xo: int, yo: int, depth: int) -> (int, int)
    decreases MAX_DEPTH - depth,
{
    if depth >= MAX_DEPTH || stops_at(map, s, x, y) {
        (x, y)
    } else {
        march(map, s, x + xo, y + yo, xo, yo, depth + 1)
    }
}

/// Length of the probe of a grid-line family parallel to the ray.
pub open spec fn probe_length(cfg: Config) -> int {
    PROBE_CELLS * cfg.cell_units()
}

/// First crossing of a horizontal grid line by the ray at angle `a` from
/// `(ox, oy)`, with the step between crossings; a ray parallel to those lines
/// gets a fixed probe and no steps.
pub open spec fn h_start(cfg: Config, trig: TrigTable, ox: int, oy: int, a: int) -> MarchState {
    let s = cfg.cell_units();
    let at = -(trig.cot@[a] as int);
    if HALF_TURN < a {
        let ry = (oy / s) * s - EPSILON;
        (((oy - ry) * at) / (SCALE as int) + ox, ry, (s * at) / (SCALE as int), -s, 0)
    } else if 0 < a < HALF_TURN {
        let ry = (oy / s) * s + s;
        (((oy - ry) * at) / (SCALE as int) + ox, ry, (-s * at) / (SCALE as int), s, 0)
    } else if a == 0 {
        (ox + probe_length(cfg), oy, probe_length(cfg), 0, MAX_DEPTH as int)
    } else {
        (ox - probe_length(cfg), oy, -probe_length(cfg), 0, MAX_DEPTH as int)
    }
}

/// First crossing of a vertical grid line, as `h_start` for the other family.
pub open spec fn v_start(cfg: Config, trig: TrigTable, ox: int, oy: int, a: int) -> MarchState {
    let s = cfg.cell_units();
    let nt = -(trig.tan@[a] as int);
    if QUARTER_TURN < a < THREE_QUARTER_TURN {
        let rx = (ox / s) * s - EPSILON;
        (rx, ((ox - rx) * nt) / (SCALE as int) + oy, -s, (s * nt) / (SCALE as int), 0)
    } else if a < QUARTER_TURN || THREE_QUARTER_TURN < a {
        let rx = (ox / s) * s + s;
        (rx, ((ox - rx) * nt) / (SCALE as int) + oy, s, (-s * nt) / (SCALE as int), 0)
    } else if a == QUARTER_TURN {
        (ox, oy + probe_length(cfg), 0, probe_length(cfg), MAX_DEPTH as int)
    } else {
        (ox, oy - probe_length(cfg), 0, -probe_length(cfg), MAX_DEPTH as int)
    }
}

pub open spec fn run(map: GameMap, cfg: Config, st: MarchState) -> (int, int) {
    march(map, cfg.cell_units(), st.0, st.1, st.2, st.3, st.4)
}

/// Where the horizontal-line march of the ray at angle `a` stops.
pub open spec fn h_end(map: GameMap, cfg: Config, trig: TrigTable, ox: int, oy: int, a: int) -> (int, int) {
    run(map, cfg, h_start(cfg, trig, ox, oy, a))
}

/// Where the vertical-line march of the ray at angle `a` stops.
pub open spec fn v_end(map: GameMap, cfg: Config, trig: TrigTable, ox: int, oy: int, a: int) -> (int, int) {
    run(map, cfg, v_start(cfg, trig, ox, oy, a))
}

/// `c` is the cast of the ray at angle `a` from `(ox, oy)`.
pub open spec fn cast_ok(map: GameMap, cfg: Config, trig: TrigTable, ox: int, oy: int, a: int, c: RayCast) -> bool {
    &&& c.angle == a
    &&& (c.h_end.x as int, c.h_end.y as int) == h_end(map, cfg, trig, ox, oy, a)
    &&& (c.v_end.x as int, c.v_end.y as int) == v_end(map, cfg, trig, ox, oy, a)
    &&& is_floor_sqrt(c.h_dist as int, dist_sq(ox, oy, c.h_end.x as int, c.h_end.y as int))
    &&& is_floor_sqrt(c.v_dist as int, dist_sq(ox, oy, c.v_end.x as int, c.v_end.y as int))
}

/// The distance of a cast: the nearer of its two marches.
pub open spec fn cast_distance(c: RayCast) -> int {
    if c.h_dist < c.v_dist {
        c.h_dist as int
    } else {
        c.v_dist as int
    }
}

pub open spec fn origin_ok(ox: int, oy: int) -> bool {
    -ORIGIN_LIMIT <= ox <= ORIGIN_LIMIT && -ORIGIN_LIMIT <= oy <= ORIGIN_LIMIT
}

/// Snapping `v` down to a multiple of `s` moves it by less than `s`.
pub proof fn lemma_snap(v: int, s: int)
    requires
        s > 0,
    ensures
        v - s < (v / s) * s <= v,
{
    vstd::arithmetic::div_mod::lemma_fundamental_div_mod(v, s);
    vstd::arithmetic::div_mod::lemma_mod_bound(v, s);
    assert((v / s) * s == s * (v / s)) by (nonlinear_arith);
}

fn stops(map: &GameMap, s: i64, x: i64, y: i64) -> (b: bool)
    requires
        map.wf(),
        s > 0,
    ensures
        b == stops_at(*map, s as int, x as int, y as int),
{
    if x < 0 || y < 0 {
        proof {
            lemma_snap(x as int, s as int);
            lemma_snap(y as int, s as int);
            if x < 0 {
                let q = (x as int) / (s as int);
                assert(q < 0) by (nonlinear_arith) requires q * s < 0, s > 0;
            } else {
                let q = (y as int) / (s as int);
                assert(q < 0) by (nonlinear_arith) requires q * s < 0, s > 0;
            }
        }
        return true;
    }
    let c = x / s;
    let r = y / s;
    if c >= map.width as i64 || r >= map.height as i64 {
        return true;
    }
    map.is_wall(c as usize, r as usize)
}

fn march_exec(map: &GameMap, s: i64, x: i64, y: i64, xo: i64, yo: i64, depth: u32) -> (p: Point)
    requires
        map.wf(),
        s > 0,
        -START_LIMIT <= x <= START_LIMIT,
        -START_LIMIT <= y <= START_LIMIT,
        -STEP_LIMIT <= xo <= STEP_LIMIT,
        -STEP_LIMIT <= yo <= STEP_LIMIT,
        depth <= MAX_DEPTH,
    ensures
        (p.x as int, p.y as int) == march(*map, s as int, x as int, y as int, xo as int, yo as int, depth as int),
        -REACH_LIMIT <= p.x <= REACH_LIMIT,
        -REACH_LIMIT <= p.y <= REACH_LIMIT,
{
    let mut cx = x;
    let mut cy = y;
    let mut d = depth;
    let mut done = false;
    while d < MAX_DEPTH && !done
        invariant
            map.wf(),
            s > 0,
            depth <= d <= MAX_DEPTH,
            -STEP_LIMIT <= xo <= STEP_LIMIT,
            -STEP_LIMIT <= yo <= STEP_LIMIT,
            -START_LIMIT - (d - depth) * 102400000000 <= cx <= START_LIMIT + (d - depth) * 102400000000,
            -START_LIMIT - (d - depth) * 102400000000 <= cy <= START_LIMIT + (d - depth) * 102400000000,
            done ==> stops_at(*map, s as int, cx as int, cy as int),
            march(*map, s as int, cx as int, cy as int, xo as int, yo as int, d as int)
                == march(*map, s as int, x as int, y as int, xo as int, yo as int, depth as int),
        decreases MAX_DEPTH - d + (if done { 0int } else { 1int }),
    {
        if stops(map, s, cx, cy) {
            done = true;
        } else {
            cx = cx + xo;
            cy = cy + yo;
            d += 1;
        }
    }
    Point { x: cx, y: cy }
}

/// The magnitude of a scaled product when the first factor is at most a cell.
proof fn lemma_step_bound(p: int, t: int)
    requires
        -10240000 <= p <= 10240000,
        -100000000 <= t <= 100000000,
    ensures
        -1024000000000000 <= p * t <= 1024000000000000,
        -STEP_LIMIT <= (p * t) / (SCALE as int) <= STEP_LIMIT,
{
    assert(-1024000000000000 <= p * t <= 1024000000000000) by (nonlinear_arith)
        requires -10240000 <= p <= 10240000, -100000000 <= t <= 100000000;
}

/// The magnitude of a scaled product when the first factor is at most a cell and a nudge.
proof fn lemma_scaled_bound(p: int, t: int)
    requires
        -10240001 <= p <= 10240001,
        -100000000 <= t <= 100000000,
    ensures
        -1024000100000000 <= p * t <= 1024000100000000,
        -STEP_LIMIT - 10001 <= (p * t) / (SCALE as int) <= STEP_LIMIT + 10001,
{
    assert(-1024000100000000 <= p * t <= 1024000100000000) by (nonlinear_arith)
        requires -10240001 <= p <= 10240001, -100000000 <= t <= 100000000;
}

fn h_start_exec(cfg: &Config, trig: &TrigTable, ox: i64, oy: i64, a: u32) -> (r: (i64, i64, i64, i64, u32))
    requires
        cfg.valid(),
        trig.wf(),
        origin_ok(ox as int, oy as int),
        a < TURN,
    ensures
        (r.0 as int, r.1 as int, r.2 as int, r.3 as int, r.4 as int) == h_start(*cfg, *trig, ox as int, oy as int, a as int),
        -START_LIMIT <= r.0 <= START_LIMIT,
        -START_LIMIT <= r.1 <= START_LIMIT,
        -STEP_LIMIT <= r.2 <= STEP_LIMIT,
        -STEP_LIMIT <= r.3 <= STEP_LIMIT,
        r.4 <= MAX_DEPTH,
{
    let s: i64 = cfg.cell_size * SCALE;
    assert(crate::trig::entries_ok(trig.tan@, trig.cot@, trig.cos@, a as int));
    let at: i64 = -trig.cot[a as usize];
    if a > HALF_TURN {
        proof { lemma_snap(oy as int, s as int); }
        let ry = floor_div(oy, s) * s - EPSILON;
        proof {
            lemma_scaled_bound(oy - ry, at as int);
            lemma_step_bound(s as int, at as int);
        }
        let rx = floor_div((oy - ry) * at, SCALE) + ox;
        let xo = floor_div(s * at, SCALE);
        (rx, ry, xo, -s, 0)
    } else if 0 < a && a < HALF_TURN {
        proof { lemma_snap(oy as int, s as int); }
        let ry = floor_div(oy, s) * s + s;
        proof {
            lemma_scaled_bound(oy - ry, at as int);
            lemma_step_bound(-s, at as int);
        }
        let rx = floor_div((oy - ry) * at, SCALE) + ox;
        let xo = floor_div(-s * at, SCALE);
        (rx, ry, xo, s, 0)
    } else if a == 0 {
        let p = PROBE_CELLS * s;
        (ox + p, oy, p, 0, MAX_DEPTH)
    } else {
        let p = PROBE_CELLS * s;
        (ox - p, oy, -p, 0, MAX_DEPTH)
    }
}

fn v_start_exec(cfg: &Config, trig: &TrigTable, ox: i64, oy: i64, a: u32) -> (r: (i64, i64, i64, i64, u32))
    requires
        cfg.valid(),
        trig.wf(),
        origin_ok(ox as int, oy as int),
        a < TURN,
    ensures
        (r.0 as int, r.1 as int, r.2 as int, r.3 as int, r.4 as int) == v_start(*cfg, *trig, ox as int, oy as int, a as int),
        -START_LIMIT <= r.0 <= START_LIMIT,
        -START_LIMIT <= r.1 <= START_LIMIT,
        -STEP_LIMIT <= r.2 <= STEP_LIMIT,
        -STEP_LIMIT <= r.3 <= STEP_LIMIT,
        r.4 <= MAX_DEPTH,
{
    let s: i64 = cfg.cell_size * SCALE;
    assert(crate::trig::entries_ok(trig.tan@, trig.cot@, trig.cos@, a as int));
    let nt: i64 = -trig.tan[a as usize];
    if QUARTER_TURN < a && a < THREE_QUARTER_TURN {
        proof { lemma_snap(ox as int, s as int); }
        let rx = floor_div(ox, s) * s - EPSILON;
        proof {
            lemma_scaled_bound(ox - rx, nt as int);
            lemma_step_bound(s as int, nt as int);
        }
        let ry = floor_div((ox - rx) * nt, SCALE) + oy;
        let yo = floor_div(s * nt, SCALE);
        (rx, ry, -s, yo, 0)
    } else if a < QUARTER_TURN || THREE_QUARTER_TURN < a {
        proof { lemma_snap(ox as int, s as int); }
        let rx = floor_div(ox, s) * s + s;
        proof {
            lemma_scaled_bound(ox - rx, nt as int);
            lemma_step_bound(-s, nt as int);
        }
        let ry = floor_div((ox - rx) * nt, SCALE) + oy;
        let yo = floor_div(-s * nt, SCALE);
        (rx, ry, s, yo, 0)
    } else if a == QUARTER_TURN {
        let p = PROBE_CELLS * s;
        (ox, oy + p, 0, p, MAX_DEPTH)
    } else {
        let p = PROBE_CELLS * s;
        (ox, oy - p, 0, -p, MAX_DEPTH)
    }
}

/// Casts one ray at angle `a` from `(ox, oy)`: both grid-line marches, their
/// resting points, and the distance to each.
pub fn cast_ray(map: &GameMap, cfg: &Config, trig: &TrigTable, ox: i64, oy: i64, a: u32) -> (c: RayCast)
    requires
        map.wf(),
        cfg.valid(),
        trig.wf(),
        origin_ok(ox as int, oy as int),
        a < TURN,
    ensures
        cast_ok(*map, *cfg, *trig, ox as int, oy as int, a as int, c),
{
    let s: i64 = cfg.cell_size * SCALE;
    let hs = h_start_exec(cfg, trig, ox, oy, a);
    let h = march_exec(map, s, hs.0, hs.1, hs.2, hs.3, hs.4);
    let vs = v_start_exec(cfg, trig, ox, oy, a);
    let v = march_exec(map, s, vs.0, vs.1, vs.2, vs.3, vs.4);
    let h_dist = distance(ox, oy, h.x, h.y);
    let v_dist = distance(ox, oy, v.x, v.y);
    RayCast { angle: a, h_end: h, v_end: v, h_dist, v_dist }
}

/// Angle of ray `i` for a viewer facing `dir`: the fan spans the field of
/// view, centred on `dir`.
pub open spec fn ray_angle(cfg: Config, dir: int, i: int) -> int {
    norm_angle(dir + (i * cfg.fov) / (cfg.rays_count as int) - cfg.fov / 2)
}

/// The ray origin of a player: its position offset by the collision radius.
pub open spec fn origin_x(cfg: Config, p: Player) -> int {
    p.x_pos + cfg.collision_radius * SCALE
}

pub open spec fn origin_y(cfg: Config, p: Player) -> int {
    p.y_pos + cfg.collision_radius * SCALE
}

/// `c` is the cast of ray `i` of the fan seen by `p`.
pub open spec fn fan_cast_ok(map: GameMap, cfg: Config, trig: TrigTable, p: Player, i: int, c: RayCast) -> bool {
    cast_ok(map, cfg, trig, origin_x(cfg, p), origin_y(cfg, p), ray_angle(cfg, p.player_dir as int, i), c)
}

/// Casts the whole fan of rays seen by `player`. The distances of the
/// horizontal-line and vertical-line marches are written to `hrays` and
/// `vrays`, one per ray; the casts themselves are returned.
pub fn cast_rays(
    map: &GameMap,
    cfg: &Config,
    trig: &TrigTable,
    player: &Player,
    hrays: &mut Vec<u64>,
    vrays: &mut Vec<u64>,
) -> (casts: Vec<RayCast>)
    requires
        map.wf(),
        cfg.valid(),
        trig.wf(),
        player.wf(),
    ensures
        casts@.len() == cfg.rays_count,
        final(hrays)@.len() == cfg.rays_count,
        final(vrays)@.len() == cfg.rays_count,
        forall|i: int| 0 <= i < cfg.rays_count ==> {
            &&& fan_cast_ok(*map, *cfg, *trig, *player, i, #[trigger] casts@[i])
            &&& final(hrays)@[i] == casts@[i].h_dist
            &&& final(vrays)@[i] == casts@[i].v_dist
        },
{
    let ox: i64 = player.x_pos + cfg.collision_radius * SCALE;
    let oy: i64 = player.y_pos + cfg.collision_radius * SCALE;
    let mut casts: Vec<RayCast> = Vec::new();
    let mut hs: Vec<u64> = Vec::new();
    let mut vs: Vec<u64> = Vec::new();
    let mut i: usize = 0;
    while i < cfg.rays_count
        invariant
            map.wf(),
            cfg.valid(),
            trig.wf(),
            player.wf(),
            ox == origin_x(*cfg, *player),
            oy == origin_y(*cfg, *player),
            i <= cfg.rays_count,
            casts@.len() == i,
            hs@.len() == i,
            vs@.len() == i,
            forall|j: int| 0 <= j < i ==> {
                &&& fan_cast_ok(*map, *cfg, *trig, *player, j, #[trigger] casts@[j])
                &&& hs@[j] == casts@[j].h_dist
                &&& vs@[j] == casts@[j].v_dist
            },
        decreases cfg.rays_count - i,
    {
        assert((i as int) * (cfg.fov as int) <= 4096 * 10800) by (nonlinear_arith)
            requires i <= 4096, cfg.fov <= 10800;
        let off: i64 = (i as i64 * cfg.fov as i64) / cfg.rays_count as i64;
        assert(off == ((i as int) * (cfg.fov as int)) / (cfg.rays_count as int));
        let a = normalize_angle(player.player_dir as i64 + off - (cfg.fov / 2) as i64);
        let c = cast_ray(map, cfg, trig, ox, oy, a);
        casts.push(c);
        hs.push(c.h_dist);
        vs.push(c.v_dist);
        i += 1;
    }
    *hrays = hs;
    *vrays = vs;
    casts
}

/// `(x, y)` lies within the map's rectangle widened by one fixed unit.
pub open spec fn near_map(map: GameMap, s: int, x: int, y: int) -> bool {
    -1 <= x <= map.width * s && -1 <= y <= map.height * s
}

/// Square of the map's diagonal, in fixed units.
pub open spec fn diagonal_sq(map: GameMap, cfg: Config) -> int {
    let s = cfg.cell_units();
    (map.width * s) * (map.width * s) + (map.height * s) * (map.height * s)
}

/// `(ox, oy)` lies in a cell strictly inside the outer ring.
pub open spec fn inside_ring(map: GameMap, cfg: Config, ox: int, oy: int) -> bool {
    let s = cfg.cell_units();
    1 <= ox / s <= map.width - 2 && 1 <= oy / s <= map.height - 2
}

/// The edges of the last cells of a row of `n` cells.
proof fn lemma_cell_multiples(n: int, s: int)
    ensures
        (n - 1) * s == n * s - s,
        (n - 2) * s == n * s - s - s,
        1 * s == s,
{
    assert((n - 1) * s == n * s - s) by (nonlinear_arith);
    assert((n - 2) * s == n * s - s - s) by (nonlinear_arith);
}

/// A cell index between `lo` and `hi` bounds the coordinate within the cells.
pub(crate) proof fn lemma_cell_range(v: int, s: int, lo: int, hi: int)
    requires
        s > 0,
        lo <= v / s <= hi,
    ensures
        lo * s <= v < (hi + 1) * s,
{
    lemma_snap(v, s);
    let q = v / s;
    assert(lo * s <= q * s) by (nonlinear_arith) requires lo <= q, s > 0;
    assert(q * s + s <= (hi + 1) * s) by (nonlinear_arith) requires q <= hi, s > 0;
}

/// Where the march goes on, the point is in a cell inside the outer ring.
proof fn lemma_open_point_inside(map: GameMap, s: int, x: int, y: int)
    requires
        map.wf(),
        map.enclosed(),
        s > 0,
        !stops_at(map, s, x, y),
    ensures
        s <= x < (map.width - 1) * s,
        s <= y < (map.height - 1) * s,
{
    let c = x / s;
    let r = y / s;
    assert(map.wall_at(0, r) && map.wall_at(map.width - 1, r));
    assert(map.wall_at(c, 0) && map.wall_at(c, map.height - 1));
    lemma_cell_range(x, s, 1, map.width - 2);
    lemma_cell_range(y, s, 1, map.height - 2);
}

/// A march whose steps are at most a cell in each coordinate, started near
/// an enclosed map, comes to rest near it.
proof fn lemma_march_near_map(map: GameMap, s: int, x: int, y: int, xo: int, yo: int, depth: int)
    requires
        map.wf(),
        map.enclosed(),
        s > 0,
        near_map(map, s, x, y),
        -s <= xo <= s,
        -s <= yo <= s,
    ensures
        near_map(map, s, march(map, s, x, y, xo, yo, depth).0, march(map, s, x, y, xo, yo, depth).1),
    decreases MAX_DEPTH - depth,
{
    if depth < MAX_DEPTH && !stops_at(map, s, x, y) {
        lemma_open_point_inside(map, s, x, y);
        lemma_cell_multiples(map.width as int, s);
        lemma_cell_multiples(map.height as int, s);
        lemma_march_near_map(map, s, x + xo, y + yo, xo, yo, depth + 1);
    }
}

/// `(p * t) / SCALE` is at most `s` in magnitude when `|p| <= s` and `|t| <= SCALE`.
proof fn lemma_unit_slope(p: int, t: int, s: int)
    requires
        -s <= p <= s,
        -SCALE <= t <= SCALE,
    ensures
        -s <= (p * t) / (SCALE as int) <= s,
{
    assert(-s * SCALE <= p * t <= s * SCALE) by (nonlinear_arith)
        requires -s <= p <= s, -SCALE <= t <= SCALE, SCALE == 10000;
}

/// The march that crosses one grid line per cell, for a slope of at most
/// one, starts near the map and steps at most a cell at a time.
proof fn lemma_start_near_map(map: GameMap, cfg: Config, trig: TrigTable, ox: int, oy: int, a: int, vertical: bool)
    requires
        map.wf(),
        cfg.valid(),
        trig.wf(),
        0 <= a < TURN,
        inside_ring(map, cfg, ox, oy),
        vertical ==> abs(trig.tan@[a] as int) <= SCALE && a != QUARTER_TURN && a != THREE_QUARTER_TURN,
        !vertical ==> abs(trig.cot@[a] as int) <= SCALE && a != 0 && a != HALF_TURN,
    ensures
        ({
            let st = if vertical { v_start(cfg, trig, ox, oy, a) } else { h_start(cfg, trig, ox, oy, a) };
            &&& near_map(map, cfg.cell_units(), st.0, st.1)
            &&& -cfg.cell_units() <= st.2 <= cfg.cell_units()
            &&& -cfg.cell_units() <= st.3 <= cfg.cell_units()
        }),
{
    let s = cfg.cell_units();
    lemma_cell_range(ox, s, 1, map.width - 2);
    lemma_cell_range(oy, s, 1, map.height - 2);
    lemma_snap(ox, s);
    lemma_snap(oy, s);
    lemma_cell_multiples(map.width as int, s);
    lemma_cell_multiples(map.height as int, s);
    if vertical {
        let nt = -(trig.tan@[a] as int);
        let rx = if QUARTER_TURN < a < THREE_QUARTER_TURN { (ox / s) * s - EPSILON } else { (ox / s) * s + s };
        lemma_unit_slope(ox - rx, nt, s);
        lemma_unit_slope(s, nt, s);
        lemma_unit_slope(-s, nt, s);
    } else {
        let at = -(trig.cot@[a] as int);
        let ry = if HALF_TURN < a { (oy / s) * s - EPSILON } else { (oy / s) * s + s };
        lemma_unit_slope(oy - ry, at, s);
        lemma_unit_slope(s, at, s);
        lemma_unit_slope(-s, at, s);
    }
}

/// A point near the map is within the diagonal of an origin inside the ring.
proof fn lemma_near_within_diagonal(map: GameMap, cfg: Config, ox: int, oy: int, x: int, y: int, d: int)
    requires
        map.wf(),
        cfg.valid(),
        inside_ring(map, cfg, ox, oy),
        near_map(map, cfg.cell_units(), x, y),
        is_floor_sqrt(d, dist_sq(ox, oy, x, y)),
    ensures
        d * d <= diagonal_sq(map, cfg),
{
    let s = cfg.cell_units();
    lemma_cell_range(ox, s, 1, map.width - 2);
    lemma_cell_range(oy, s, 1, map.height - 2);
    let w = map.width * s;
    let h = map.height * s;
    lemma_cell_multiples(map.width as int, s);
    lemma_cell_multiples(map.height as int, s);
    assert((x - ox) * (x - ox) <= w * w) by (nonlinear_arith) requires -w <= x - ox <= w;
    assert((y - oy) * (y - oy) <= h * h) by (nonlinear_arith) requires -h <= y - oy <= h;
}

/// In a map whose outer ring is all wall, a ray cast from a cell inside the
/// ring stops within the map's diagonal, whatever its angle.
pub proof fn lemma_enclosed_distance_bounded(
    map: GameMap,
    cfg: Config,
    trig: TrigTable,
    ox: int,
    oy: int,
    a: int,
    c: RayCast,
)
    requires
        map.wf(),
        map.enclosed(),
        cfg.valid(),
        trig.wf(),
        0 <= a < TURN,
        inside_ring(map, cfg, ox, oy),
        cast_ok(map, cfg, trig, ox, oy, a, c),
    ensures
        cast_distance(c) * cast_distance(c) <= diagonal_sq(map, cfg),
{
    let s = cfg.cell_units();
    assert(crate::trig::entries_ok(trig.tan@, trig.cot@, trig.cos@, a));
    let vertical = abs(trig.tan@[a] as int) <= SCALE && a != QUARTER_TURN && a != THREE_QUARTER_TURN;
    lemma_start_near_map(map, cfg, trig, ox, oy, a, vertical);
    if vertical {
        let st = v_start(cfg, trig, ox, oy, a);
        lemma_march_near_map(map, s, st.0, st.1, st.2, st.3, st.4);
        lemma_near_within_diagonal(map, cfg, ox, oy, c.v_end.x as int, c.v_end.y as int, c.v_dist as int);
    } else {
        let st = h_start(cfg, trig, ox, oy, a);
        lemma_march_near_map(map, s, st.0, st.1, st.2, st.3, st.4);
        lemma_near_within_diagonal(map, cfg, ox, oy, c.h_end.x as int, c.h_end.y as int, c.h_dist as int);
    }
    let d = cast_distance(c);
    assert(d * d <= (c.h_dist as int) * (c.h_dist as int)) by (nonlinear_arith)
        requires 0 <= d <= c.h_dist;
    assert(d * d <= (c.v_dist as int) * (c.v_dist as int)) by (nonlinear_arith)
        requires 0 <= d <= c.v_dist;
}

/// Every ray of the fan is the same after the viewer turns through a whole
/// turn: the two casts agree in angle, resting points and distances.
pub proof fn lemma_full_turn_invariance(
    map: GameMap,
    cfg: Config,
    trig: TrigTable,
    ox: int,
    oy: int,
    dir: int,
    i: int,
    before: RayCast,
    after: RayCast,
)
    requires
        cfg.valid(),
        cast_ok(map, cfg, trig, ox, oy, ray_angle(cfg, dir, i), before),
        cast_ok(map, cfg, trig, ox, oy, ray_angle(cfg, dir + TURN, i), after),
    ensures
        after == before,
{
    let t = dir + (i * cfg.fov) / (cfg.rays_count as int) - cfg.fov / 2;
    assert(dir + TURN + (i * cfg.fov) / (cfg.rays_count as int) - cfg.fov / 2 == t + TURN);
    vstd::arithmetic::div_mod::lemma_mod_add_multiples_vanish(t, TURN as int);
    assert(ray_angle(cfg, dir + TURN, i) == ray_angle(cfg, dir, i));
    lemma_floor_sqrt_unique(
        before.h_dist as int,
        after.h_dist as int,
        dist_sq(ox, oy, before.h_end.x as int, before.h_end.y as int),
    );
    lemma_floor_sqrt_unique(
        before.v_dist as int,
        after.v_dist as int,
        dist_sq(ox, oy, before.v_end.x as int, before.v_end.y as int),
    );
}

/// After its remaining steps a march has moved at most that many of its
/// steps along each axis.
proof fn lemma_march_spread(map: GameMap, s: int, x: int, y: int, xo: int, yo: int, depth: int)
    requires
        0 <= depth <= MAX_DEPTH,
    ensures
        abs(march(map, s, x, y, xo, yo, depth).0 - x) <= (MAX_DEPTH - depth) * abs(xo),
        abs(march(map, s, x, y, xo, yo, depth).1 - y) <= (MAX_DEPTH - depth) * abs(yo),
    decreases MAX_DEPTH - depth,
{
    let k = MAX_DEPTH - depth;
    if depth < MAX_DEPTH && !stops_at(map, s, x, y) {
        lemma_march_spread(map, s, x + xo, y + yo, xo, yo, depth + 1);
        assert(k * abs(xo) == (k - 1) * abs(xo) + abs(xo)) by (nonlinear_arith);
        assert(k * abs(yo) == (k - 1) * abs(yo) + abs(yo)) by (nonlinear_arith);
    } else {
        assert(k * abs(xo) >= 0 && k * abs(yo) >= 0) by (nonlinear_arith) requires k >= 0;
    }
}

/// A march that starts within a cell and a nudge of the origin on the ray's
/// own axis, and steps a cell at a time along that axis, ends within nine
/// cells and a nudge: its distance is shorter than the probe.
proof fn lemma_axis_march_shorter(map: GameMap, cfg: Config, ox: int, oy: int, st: MarchState, d: int)
    requires
        cfg.valid(),
        st.4 == 0,
        (st.1 == oy && st.3 == 0 && abs(st.0 - ox) <= cfg.cell_units() + EPSILON
            && abs(st.2) == cfg.cell_units())
        || (st.0 == ox && st.2 == 0 && abs(st.1 - oy) <= cfg.cell_units() + EPSILON
            && abs(st.3) == cfg.cell_units()),
        is_floor_sqrt(d, dist_sq(ox, oy, run(map, cfg, st).0, run(map, cfg, st).1)),
    ensures
        d < probe_length(cfg),
{
    let s = cfg.cell_units();
    let e = run(map, cfg, st);
    lemma_march_spread(map, s, st.0, st.1, st.2, st.3, 0);
    let b = 9 * s + 1;
    let dx = e.0 - ox;
    let dy = e.1 - oy;
    if st.3 == 0 {
        assert(8 * abs(st.3) == 0);
        assert(dy == 0);
        assert(8 * abs(st.2) == 8 * s);
        assert(-b <= dx <= b);
    } else {
        assert(8 * abs(st.2) == 0);
        assert(dx == 0);
        assert(8 * abs(st.3) == 8 * s);
        assert(-b <= dy <= b);
    }
    assert(dx * dx + dy * dy <= b * b) by (nonlinear_arith)
        requires -b <= dx <= b, -b <= dy <= b, dx == 0 || dy == 0;
    assert(d <= b) by (nonlinear_arith) requires d * d <= b * b, d >= 0, b >= 0;
}

/// The probe of the family parallel to an axis-aligned ray ends exactly its
/// length away.
proof fn lemma_probe_distance(cfg: Config, ox: int, oy: int, x: int, y: int, d: int)
    requires
        cfg.valid(),
        (x == ox + probe_length(cfg) || x == ox - probe_length(cfg)) && y == oy
            || (y == oy + probe_length(cfg) || y == oy - probe_length(cfg)) && x == ox,
        is_floor_sqrt(d, dist_sq(ox, oy, x, y)),
    ensures
        d == probe_length(cfg),
{
    let p = probe_length(cfg);
    assert(dist_sq(ox, oy, x, y) == p * p) by (nonlinear_arith)
        requires dist_sq(ox, oy, x, y) == (x - ox) * (x - ox) + (y - oy) * (y - oy),
            (x - ox == p || x - ox == -p) && y == oy || (y - oy == p || y - oy == -p) && x == ox;
    lemma_floor_sqrt_square(d, p);
}

/// A ray along a grid axis is decided by the family that crosses the grid
/// lines across its path: the family parallel to it only probes, and the
/// probe is always the farther of the two.
pub proof fn lemma_axis_ray_distance(map: GameMap, cfg: Config, trig: TrigTable, ox: int, oy: int, a: int, c: RayCast)
    requires
        map.wf(),
        cfg.valid(),
        trig.wf(),
        a == 0 || a == QUARTER_TURN || a == HALF_TURN || a == THREE_QUARTER_TURN,
        cast_ok(map, cfg, trig, ox, oy, a, c),
    ensures
        (a == 0 || a == HALF_TURN) ==> c.v_dist < c.h_dist && cast_distance(c) == c.v_dist,
        (a == QUARTER_TURN || a == THREE_QUARTER_TURN) ==> c.h_dist < c.v_dist && cast_distance(c)
            == c.h_dist,
{
    let s = cfg.cell_units();
    lemma_snap(ox, s);
    lemma_snap(oy, s);
    if a == 0 || a == HALF_TURN {
        let nt = -(trig.tan@[a] as int);
        assert(nt == 0);
        let rx = if a == 0 { (ox / s) * s + s } else { (ox / s) * s - EPSILON };
        assert((ox - rx) * nt == 0 && s * nt == 0 && -s * nt == 0) by (nonlinear_arith) requires nt == 0;
        let st = v_start(cfg, trig, ox, oy, a);
        assert(st.1 == oy && st.3 == 0);
        lemma_axis_march_shorter(map, cfg, ox, oy, st, c.v_dist as int);
        lemma_probe_distance(cfg, ox, oy, c.h_end.x as int, c.h_end.y as int, c.h_dist as int);
    } else {
        let at = -(trig.cot@[a] as int);
        assert(at == 0);
        let ry = if a == QUARTER_TURN { (oy / s) * s + s } else { (oy / s) * s - EPSILON };
        assert((oy - ry) * at == 0 && s * at == 0 && -s * at == 0) by (nonlinear_arith) requires at == 0;
        let st = h_start(cfg, trig, ox, oy, a);
        assert(st.0 == ox && st.2 == 0);
        lemma_axis_march_shorter(map, cfg, ox, oy, st, c.h_dist as int);
        lemma_probe_distance(cfg, ox, oy, c.v_end.x as int, c.v_end.y as int, c.v_dist as int);
    }
}

/// A ray pointing along +x from an open cell whose neighbour in that
/// direction is a wall stops on the wall's face, exactly the distance from
/// the origin to the face away.
pub proof fn lemma_facing_wall(map: GameMap, cfg: Config, trig: TrigTable, ox: int, oy: int, c: RayCast)
    requires
        map.wf(),
        cfg.valid(),
        trig.wf(),
        0 <= ox,
        0 <= oy,
        map.in_bounds(ox / cfg.cell_units() + 1, oy / cfg.cell_units()),
        map.wall_at(ox / cfg.cell_units() + 1, oy / cfg.cell_units()),
        cast_ok(map, cfg, trig, ox, oy, 0, c),
    ensures
        cast_distance(c) == (ox / cfg.cell_units() + 1) * cfg.cell_units() - ox,
{
    let s = cfg.cell_units();
    let q = ox / s;
    let rx = q * s + s;
    lemma_snap(ox, s);
    assert(rx == s * (q + 1)) by (nonlinear_arith) requires rx == q * s + s;
    vstd::arithmetic::div_mod::lemma_div_multiples_vanish(q + 1, s);
    assert(v_start(cfg, trig, ox, oy, 0) == (rx, oy, s, 0int, 0int));
    assert(stops_at(map, s, rx, oy));
    assert(v_end(map, cfg, trig, ox, oy, 0) == (rx, oy));
    assert((oy - oy) * (oy - oy) == 0);
    assert(dist_sq(ox, oy, rx, oy) == (rx - ox) * (rx - ox));
    lemma_floor_sqrt_square(c.v_dist as int, rx - ox);
    lemma_axis_ray_distance(map, cfg, trig, ox, oy, 0, c);
}

/// As `lemma_facing_wall`, for a ray pointing along +y at a wall in the
/// next row.
pub proof fn lemma_facing_wall_below(map: GameMap, cfg: Config, trig: TrigTable, ox: int, oy: int, c: RayCast)
    requires
        map.wf(),
        cfg.valid(),
        trig.wf(),
        0 <= ox,
        0 <= oy,
        map.in_bounds(ox / cfg.cell_units(), oy / cfg.cell_units() + 1),
        map.wall_at(ox / cfg.cell_units(), oy / cfg.cell_units() + 1),
        cast_ok(map, cfg, trig, ox, oy, QUARTER_TURN as int, c),
    ensures
        cast_distance(c) == (oy / cfg.cell_units() + 1) * cfg.cell_units() - oy,
{
    let s = cfg.cell_units();
    let q = oy / s;
    let ry = q * s + s;
    lemma_snap(oy, s);
    assert(ry == s * (q + 1)) by (nonlinear_arith) requires ry == q * s + s;
    vstd::arithmetic::div_mod::lemma_div_multiples_vanish(q + 1, s);
    assert(h_start(cfg, trig, ox, oy, QUARTER_TURN as int) == (ox, ry, 0int, s, 0int));
    assert(stops_at(map, s, ox, ry));
    assert(h_end(map, cfg, trig, ox, oy, QUARTER_TURN as int) == (ox, ry));
    assert((ox - ox) * (ox - ox) == 0);
    assert(dist_sq(ox, oy, ox, ry) == (ry - oy) * (ry - oy));
    lemma_floor_sqrt_square(c.h_dist as int, ry - oy);
    lemma_axis_ray_distance(map, cfg, trig, ox, oy, QUARTER_TURN as int, c);
}

/// As `lemma_facing_wall`, for a ray pointing along -x at a wall in the
/// previous column: the march ends `EPSILON` past the wall's face, the
/// nudge that puts the sample inside the wall's cell.
pub proof fn lemma_facing_wall_left(map: GameMap, cfg: Config, trig: TrigTable, ox: int, oy: int, c: RayCast)
    requires
        map.wf(),
        cfg.valid(),
        trig.wf(),
        0 <= ox,
        0 <= oy,
        map.in_bounds(ox / cfg.cell_units() - 1, oy / cfg.cell_units()),
        map.wall_at(ox / cfg.cell_units() - 1, oy / cfg.cell_units()),
        cast_ok(map, cfg, trig, ox, oy, HALF_TURN as int, c),
    ensures
        cast_distance(c) == ox - (ox / cfg.cell_units()) * cfg.cell_units() + EPSILON,
{
    let s = cfg.cell_units();
    let q = ox / s;
    let rx = q * s - EPSILON;
    lemma_snap(ox, s);
    assert(rx == s * (q - 1) + (s - 1)) by (nonlinear_arith) requires rx == q * s - 1;
    vstd::arithmetic::div_mod::lemma_fundamental_div_mod_converse(rx, s, q - 1, s - 1);
    assert(v_start(cfg, trig, ox, oy, HALF_TURN as int) == (rx, oy, -s, 0int, 0int));
    assert(stops_at(map, s, rx, oy));
    assert(v_end(map, cfg, trig, ox, oy, HALF_TURN as int) == (rx, oy));
    assert(dist_sq(ox, oy, rx, oy) == (ox - rx) * (ox - rx)) by (nonlinear_arith)
        requires dist_sq(ox, oy, rx, oy) == (rx - ox) * (rx - ox) + (oy - oy) * (oy - oy);
    lemma_floor_sqrt_square(c.v_dist as int, ox - rx);
    lemma_axis_ray_distance(map, cfg, trig, ox, oy, HALF_TURN as int, c);
}

/// As `lemma_facing_wall_left`, for a ray pointing along -y at a wall in the
/// previous row.
pub proof fn lemma_facing_wall_above(map: GameMap, cfg: Config, trig: TrigTable, ox: int, oy: int, c: RayCast)
    requires
        map.wf(),
        cfg.valid(),
        trig.wf(),
        0 <= ox,
        0 <= oy,
        map.in_bounds(ox / cfg.cell_units(), oy / cfg.cell_units() - 1),
        map.wall_at(ox / cfg.cell_units(), oy / cfg.cell_units() - 1),
        cast_ok(map, cfg, trig, ox, oy, THREE_QUARTER_TURN as int, c),
    ensures
        cast_distance(c) == oy - (oy / cfg.cell_units()) * cfg.cell_units() + EPSILON,
{
    let s = cfg.cell_units();
    let q = oy / s;
    let ry = q * s - EPSILON;
    lemma_snap(oy, s);
    assert(ry == s * (q - 1) + (s - 1)) by (nonlinear_arith) requires ry == q * s - 1;
    vstd::arithmetic::div_mod::lemma_fundamental_div_mod_converse(ry, s, q - 1, s - 1);
    let at = -(trig.cot@[THREE_QUARTER_TURN as int] as int);
    assert(at == 0);
    assert((oy - ry) * at == 0 && s * at == 0) by (nonlinear_arith) requires at == 0;
    assert(h_start(cfg, trig, ox, oy, THREE_QUARTER_TURN as int) == (ox, ry, 0int, -s, 0int));
    assert(stops_at(map, s, ox, ry));
    assert(h_end(map, cfg, trig, ox, oy, THREE_QUARTER_TURN as int) == (ox, ry));
    assert(dist_sq(ox, oy, ox, ry) == (oy - ry) * (oy - ry)) by (nonlinear_arith)
        requires dist_sq(ox, oy, ox, ry) == (ox - ox) * (ox - ox) + (ry - oy) * (ry - oy);
    lemma_floor_sqrt_square(c.h_dist as int, oy - ry);
    lemma_axis_ray_distance(map, cfg, trig, ox, oy, THREE_QUARTER_TURN as int, c);
}

/// The per-step offset of a march points into the quadrant of its ray:
/// right of the vertical axis it never steps left, below the horizontal
/// axis it never steps up, and so on.
pub open spec fn heads_along(a: int, xo: int, yo: int) -> bool {
    &&& (a < QUARTER_TURN || THREE_QUARTER_TURN < a ==> xo >= 0)
    &&& (QUARTER_TURN < a < THREE_QUARTER_TURN ==> xo <= 0)
    &&& (0 < a < HALF_TURN ==> yo >= 0)
    &&& (HALF_TURN < a ==> yo <= 0)
}

/// Both marches of the ray at angle `a` step in the ray's own direction.
pub proof fn lemma_marches_head_along_ray(cfg: Config, trig: TrigTable, ox: int, oy: int, a: int)
    requires
        cfg.valid(),
        trig.wf(),
        0 <= a < TURN,
    ensures
        heads_along(a, h_start(cfg, trig, ox, oy, a).2, h_start(cfg, trig, ox, oy, a).3),
        heads_along(a, v_start(cfg, trig, ox, oy, a).2, v_start(cfg, trig, ox, oy, a).3),
{
    let s = cfg.cell_units();
    assert(crate::trig::entries_ok(trig.tan@, trig.cot@, trig.cos@, a));
    let t = trig.tan@[a] as int;
    let c = trig.cot@[a] as int;
    assert(t >= 0 ==> s * t >= 0) by (nonlinear_arith) requires s > 0;
    assert(t <= 0 ==> s * t <= 0) by (nonlinear_arith) requires s > 0;
    assert(c >= 0 ==> s * c >= 0) by (nonlinear_arith) requires s > 0;
    assert(c <= 0 ==> s * c <= 0) by (nonlinear_arith) requires s > 0;
    assert(s * (-t) == -(s * t) && -s * (-t) == s * t) by (nonlinear_arith);
    assert(s * (-c) == -(s * c) && -s * (-c) == s * c) by (nonlinear_arith);
}

} // verus!
