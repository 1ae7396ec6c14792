use vstd::prelude::*;
use crate::config::{Config, SCALE, COORD_LIMIT, TURN, THREE_QUARTER_TURN};
use crate::fixed::floor_div;
use crate::grid::GameMap;
use crate::player::{Player, coord_ok};
use crate::trig::{TrigTable, norm_angle, normalize_angle};

verus! {

/// Gap left between the player and a wall it is snapped against, in fixed units.
pub const SNAP_MARGIN: i64 = 100;

/// Bound on one stride along a direction component, in fixed units.
pub const STRIDE_LIMIT: i64 = 11000;

/// Turn applied by one frame of rotation, in minutes of arc.
pub const TURN_STEP: i64 = 103;

/// Cell index of a fixed-point coordinate; negative coordinates count as cell zero.
pub open spec fn cell_index(v: int, s: int) -> int {
    if v < 0 {
        0
    } else {
        v / s
    }
}

/// Snapped coordinate along one axis when the way is blocked by the wall in cell `cell`.
pub open spec fn snap(cell: int, s: int, size: int, pos: int, delta: int) -> int {
    if delta > 0 {
        cell * s - size - SNAP_MARGIN
    } else if delta < 0 {
        (cell + 1) * s + SNAP_MARGIN
    } else {
        pos
    }
}

/// Where a move by `(dx, dy)` takes `p`: nowhere when the target cell is off
/// the map; to the target when its cell is open; otherwise snapped against
/// the wall along each axis that the wall blocks, as seen from the player's
/// own row and column. A player whose own cell is off the map cannot be
/// snapped and stays where it is.
pub open spec fn moved_to(map: GameMap, cfg: Config, p: Player, dx: int, dy: int) -> (int, int) {
    let s = cfg.cell_units();
    let size = 2 * cfg.collision_radius * SCALE;
    let nx = p.x_pos + dx;
    let ny = p.y_pos + dy;
    let cx = if dx > 0 { cell_index(nx + size, s) } else { cell_index(nx, s) };
    let cy = if dy > 0 { cell_index(ny + size, s) } else { cell_index(ny, s) };
    let own_col = cell_index(p.x_pos as int, s);
    let own_row = cell_index(p.y_pos as int, s);
    if cx >= map.width || cy >= map.height {
        (p.x_pos as int, p.y_pos as int)
    } else if !map.wall_at(cx, cy) {
        (nx, ny)
    } else if own_col >= map.width || own_row >= map.height {
        (p.x_pos as int, p.y_pos as int)
    } else {
        let sx = if map.wall_at(cx, own_row) { snap(cx, s, size, p.x_pos as int, dx) } else { nx };
        let sy = if map.wall_at(own_col, cy) { snap(cy, s, size, p.y_pos as int, dy) } else { ny };
        (sx, sy)
    }
}

/// A snapped coordinate lies next to a cell of the map.
proof fn lemma_snap_in_range(cell: int, s: int, size: int, pos: int, delta: int, bound: int)
    requires
        0 <= cell < 4096,
        0 < s <= 10240000,
        0 <= size <= 20480000,
        50000000000 <= bound,
        -bound <= pos <= bound,
    ensures
        -bound <= snap(cell, s, size, pos, delta) <= bound,
{
    assert(0 <= cell * s <= 4096 * 10240000 && 0 <= (cell + 1) * s <= 4097 * 10240000)
        by (nonlinear_arith)
        requires 0 <= cell < 4096, 0 < s <= 10240000;
}

/// A move by at most a stride from a position at least a stride inside `±bound`
/// stays inside it: a snapped position lies next to a cell of the map, far
/// inside any such bound.
proof fn lemma_moved_in_range(map: GameMap, cfg: Config, p: Player, dx: int, dy: int, bound: int)
    requires
        map.wf(),
        cfg.valid(),
        50000000000 <= bound,
        -STRIDE_LIMIT <= dx <= STRIDE_LIMIT,
        -STRIDE_LIMIT <= dy <= STRIDE_LIMIT,
        -bound + STRIDE_LIMIT <= p.x_pos <= bound - STRIDE_LIMIT,
        -bound + STRIDE_LIMIT <= p.y_pos <= bound - STRIDE_LIMIT,
    ensures
        -bound <= moved_to(map, cfg, p, dx, dy).0 <= bound,
        -bound <= moved_to(map, cfg, p, dx, dy).1 <= bound,
{
    let s = cfg.cell_units();
    let size = 2 * cfg.collision_radius * SCALE;
    let nx = p.x_pos + dx;
    let ny = p.y_pos + dy;
    let cx = if dx > 0 { cell_index(nx + size, s) } else { cell_index(nx, s) };
    let cy = if dy > 0 { cell_index(ny + size, s) } else { cell_index(ny, s) };
    if nx + size >= 0 {
        vstd::arithmetic::div_mod::lemma_div_pos_is_pos(nx + size, s);
    }
    if nx >= 0 {
        vstd::arithmetic::div_mod::lemma_div_pos_is_pos(nx, s);
    }
    if ny + size >= 0 {
        vstd::arithmetic::div_mod::lemma_div_pos_is_pos(ny + size, s);
    }
    if ny >= 0 {
        vstd::arithmetic::div_mod::lemma_div_pos_is_pos(ny, s);
    }
    if cx < map.width && cy < map.height {
        lemma_snap_in_range(cx, s, size, p.x_pos as int, dx, bound);
        lemma_snap_in_range(cy, s, size, p.y_pos as int, dy, bound);
    }
}

fn cell_index_exec(v: i64, s: i64) -> (c: i64)
    requires
        s > 0,
    ensures
        c == cell_index(v as int, s as int),
        c >= 0,
        v >= 0 ==> c <= v,
{
    if v < 0 {
        0
    } else {
        proof {
            vstd::arithmetic::div_mod::lemma_div_is_ordered_by_denominator(v as int, 1, s as int);
        }
        v / s
    }
}

/// Moves the player by `(dx, dy)`, stopping short of walls as `moved_to` says.
pub fn try_move_player(player: &mut Player, map: &GameMap, cfg: &Config, dx: i64, dy: i64)
    requires
        old(player).wf(),
        map.wf(),
        cfg.valid(),
        coord_ok(old(player).x_pos + dx),
        coord_ok(old(player).y_pos + dy),
    ensures
        final(player).wf(),
        ({
            let m = moved_to(*map, *cfg, *old(player), dx as int, dy as int);
            *final(player) == (Player { x_pos: m.0 as i64, y_pos: m.1 as i64, ..*old(player) })
        }),
{
    let s: i64 = cfg.cell_size * SCALE;
    let size: i64 = 2 * cfg.collision_radius * SCALE;
    let px = player.x_pos;
    let py = player.y_pos;
    let nx = px + dx;
    let ny = py + dy;
    let cx = if dx > 0 { cell_index_exec(nx + size, s) } else { cell_index_exec(nx, s) };
    let cy = if dy > 0 { cell_index_exec(ny + size, s) } else { cell_index_exec(ny, s) };
    if cx >= map.width as i64 || cy >= map.height as i64 {
        return;
    }
    if !map.is_wall(cx as usize, cy as usize) {
        player.update_pos(nx, ny);
        return;
    }
    let own_col = cell_index_exec(px, s);
    let own_row = cell_index_exec(py, s);
    if own_col >= map.width as i64 || own_row >= map.height as i64 {
        return;
    }
    proof {
        assert(cx * s <= 4096 * 10240000) by (nonlinear_arith)
            requires 0 <= cx <= 4096, s <= 10240000;
        assert((cx + 1) * s <= 4097 * 10240000) by (nonlinear_arith)
            requires 0 <= cx <= 4096, s <= 10240000;
        assert(cy * s <= 4096 * 10240000) by (nonlinear_arith)
            requires 0 <= cy <= 4096, s <= 10240000;
        assert((cy + 1) * s <= 4097 * 10240000) by (nonlinear_arith)
            requires 0 <= cy <= 4096, s <= 10240000;
        assert(cx * s >= 0 && cy * s >= 0) by (nonlinear_arith)
            requires 0 <= cx, 0 <= cy, s >= 0;
    }
    let mut sx = nx;
    if map.is_wall(cx as usize, own_row as usize) {
        sx = if dx > 0 {
            cx * s - size - SNAP_MARGIN
        } else if dx < 0 {
            (cx + 1) * s + SNAP_MARGIN
        } else {
            px
        };
    }
    let mut sy = ny;
    if map.is_wall(own_col as usize, cy as usize) {
        sy = if dy > 0 {
            cy * s - size - SNAP_MARGIN
        } else if dy < 0 {
            (cy + 1) * s + SNAP_MARGIN
        } else {
            py
        };
    }
    player.update_pos(sx, sy);
}

/// Which controls are held during a frame.
#[derive(Clone, Copy, Debug, PartialEq, Eq, Structural)]
pub struct Keys {
    pub turn_left: bool,
    pub turn_right: bool,
    pub forward: bool,
    pub backward: bool,
}

/// Table index of the sine of `a`: the cosine a quarter turn earlier.
pub open spec fn sin_index(a: int) -> int {
    norm_angle(a + THREE_QUARTER_TURN)
}

/// `p` turned by `delta`, its direction vector read from the table.
pub open spec fn turned(trig: TrigTable, p: Player, delta: int) -> Player {
    let a = norm_angle(p.player_dir + delta);
    Player { player_dir: a as u32, x_dir: trig.cos@[a], y_dir: trig.cos@[sin_index(a)], ..p }
}

/// `p` moved by `(dx, dy)` as `moved_to` says.
pub open spec fn moved(map: GameMap, cfg: Config, p: Player, dx: int, dy: int) -> Player {
    let m = moved_to(map, cfg, p, dx, dy);
    Player { x_pos: m.0 as i64, y_pos: m.1 as i64, ..p }
}

/// Distance walked in one frame along a direction component.
pub open spec fn stride(d: int) -> int {
    (d * 11) / 10
}

/// The player after one frame of input: turn left, turn right, walk forward,
/// walk backward, each applied in that order when its key is held.
pub open spec fn after_input(map: GameMap, cfg: Config, trig: TrigTable, p: Player, keys: Keys) -> Player {
    let turned_left = if keys.turn_left { turned(trig, p, -TURN_STEP) } else { p };
    let turned_both = if keys.turn_right { turned(trig, turned_left, TURN_STEP as int) } else { turned_left };
    let walked = if keys.forward {
        moved(map, cfg, turned_both, stride(turned_both.x_dir as int), stride(turned_both.y_dir as int))
    } else {
        turned_both
    };
    if keys.backward {
        moved(map, cfg, walked, -stride(walked.x_dir as int), -stride(walked.y_dir as int))
    } else {
        walked
    }
}

/// Turns the player by `delta` and resets its direction vector from the table.
pub fn turn_player(player: &mut Player, trig: &TrigTable, delta: i64)
    requires
        old(player).wf(),
        trig.wf(),
        -TURN <= delta <= TURN,
    ensures
        final(player).wf(),
        *final(player) == turned(*trig, *old(player), delta as int),
{
    player.update_dir(player.get_dir() as i64 + delta);
    let a = player.get_dir() as usize;
    let sa = normalize_angle(a as i64 + THREE_QUARTER_TURN as i64) as usize;
    assert(crate::trig::entries_ok(trig.tan@, trig.cot@, trig.cos@, a as int));
    assert(crate::trig::entries_ok(trig.tan@, trig.cot@, trig.cos@, sa as int));
    player.update_x_dir(trig.cos[a]);
    player.update_y_dir(trig.cos[sa]);
}

fn stride_exec(d: i64) -> (r: i64)
    requires
        -SCALE <= d <= SCALE,
    ensures
        r == stride(d as int),
        -11000 <= r <= 11000,
{
    floor_div(d * 11, 10)
}

/// Room a position needs from the coordinate bound for two strides.
pub open spec fn roomy(v: int) -> bool {
    -COORD_LIMIT + 2 * STRIDE_LIMIT <= v <= COORD_LIMIT - 2 * STRIDE_LIMIT
}

/// Applies one frame of input to the player.
pub fn apply_input(player: &mut Player, map: &GameMap, cfg: &Config, trig: &TrigTable, keys: Keys)
    requires
        old(player).wf(),
        roomy(old(player).x_pos as int),
        roomy(old(player).y_pos as int),
        map.wf(),
        cfg.valid(),
        trig.wf(),
    ensures
        final(player).wf(),
        *final(player) == after_input(*map, *cfg, *trig, *old(player), keys),
{
    if keys.turn_left {
        turn_player(player, trig, -TURN_STEP);
    }
    if keys.turn_right {
        turn_player(player, trig, TURN_STEP);
    }
    if keys.forward {
        let dx = stride_exec(player.get_x_dir());
        let dy = stride_exec(player.get_y_dir());
        proof {
            lemma_moved_in_range(*map, *cfg, *player, dx as int, dy as int, COORD_LIMIT - STRIDE_LIMIT);
        }
        try_move_player(player, map, cfg, dx, dy);
    }
    if keys.backward {
        let dx = stride_exec(player.get_x_dir());
        let dy = stride_exec(player.get_y_dir());
        try_move_player(player, map, cfg, -dx, -dy);
    }
}

} // verus!
