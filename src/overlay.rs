use vstd::prelude::*;
use vstd::arithmetic::div_mod::lemma_fundamental_div_mod_converse;
use crate::caster::{Point, RayCast, origin_x, origin_y};
use crate::config::{Config, SCALE};
use crate::grid::GameMap;
use crate::player::Player;
use crate::projector::Rgb;

verus! {

/// One map cell drawn as a quad, corners in fixed world units.
#[derive(Clone, Copy, Debug, PartialEq, Eq, Structural)]
pub struct Square {
    pub tl_point: Point,
    pub tr_point: Point,
    pub bl_point: Point,
    pub br_point: Point,
    pub color: Rgb,
}

/// A line segment in fixed world units.
#[derive(Clone, Copy, Debug, PartialEq, Eq, Structural)]
pub struct Segment {
    pub from: Point,
    pub to: Point,
}

/// The 2D overlay of one frame, one buffer per kind of geometry: the map
/// cells, the player's quad, its heading line, and two segments per ray
/// (to where the horizontal-line march and the vertical-line march stopped).
#[derive(Debug)]
pub struct Overlay {
    pub squares: Vec<Square>,
    pub player_quad: [Point; 4],
    pub heading: Segment,
    pub rays: Vec<Segment>,
}

pub open spec fn wall_rgb() -> Rgb {
    Rgb { r: 255, g: 255, b: 255 }
}

pub open spec fn floor_rgb() -> Rgb {
    Rgb { r: 0, g: 0, b: 0 }
}

/// The quad of cell `(col, row)` in the given colour.
pub open spec fn square_spec(cfg: Config, col: int, row: int, color: Rgb) -> Square {
    let s = cfg.cell_units();
    Square {
        tl_point: Point { x: (col * s) as i64, y: (row * s) as i64 },
        tr_point: Point { x: (col * s + s) as i64, y: (row * s) as i64 },
        bl_point: Point { x: (col * s) as i64, y: (row * s + s) as i64 },
        br_point: Point { x: (col * s + s) as i64, y: (row * s + s) as i64 },
        color,
    }
}

/// The quad of cell `(col, row)` of the map: light for a wall, dark otherwise.
pub open spec fn cell_square(map: GameMap, cfg: Config, col: int, row: int) -> Square {
    square_spec(cfg, col, row, if map.wall_at(col, row) { wall_rgb() } else { floor_rgb() })
}

impl Square {
    /// The quad of cell `(index_1, index_2)`, column first.
    pub fn new(index_1: i64, index_2: i64, color: Rgb, cfg: &Config) -> (sq: Square)
        requires
            cfg.valid(),
            0 <= index_1 <= 4096,
            0 <= index_2 <= 4096,
        ensures
            sq == square_spec(*cfg, index_1 as int, index_2 as int, color),
    {
        let s = cfg.cell_size * SCALE;
        assert((index_1 as int) * s <= 4096 * 10240000) by (nonlinear_arith)
            requires 0 <= index_1 <= 4096, s <= 10240000;
        assert((index_2 as int) * s <= 4096 * 10240000) by (nonlinear_arith)
            requires 0 <= index_2 <= 4096, s <= 10240000;
        assert((index_1 as int) * s >= 0 && (index_2 as int) * s >= 0) by (nonlinear_arith)
            requires 0 <= index_1, 0 <= index_2, s >= 0;
        Square {
            tl_point: Point { x: index_1 * s, y: index_2 * s },
            tr_point: Point { x: index_1 * s + s, y: index_2 * s },
            bl_point: Point { x: index_1 * s, y: index_2 * s + s },
            br_point: Point { x: index_1 * s + s, y: index_2 * s + s },
            color,
        }
    }

    pub fn get_color(&self) -> (c: Rgb)
        ensures
            c == self.color,
    {
        self.color
    }

    /// Corners in the order top-left, top-right, bottom-left, bottom-right.
    pub fn get_vertices(&self) -> (v: [Point; 4])
        ensures
            v@ == seq![self.tl_point, self.tr_point, self.bl_point, self.br_point],
    {
        let v = [self.tl_point, self.tr_point, self.bl_point, self.br_point];
        assert(v@ =~= seq![self.tl_point, self.tr_point, self.bl_point, self.br_point]);
        v
    }
}

/// The quads of every map cell, row by row.
pub fn map_squares(map: &GameMap, cfg: &Config) -> (squares: Vec<Square>)
    requires
        map.wf(),
        cfg.valid(),
    ensures
        squares@.len() == map.width * map.height,
        forall|k: int| 0 <= k < squares@.len() ==> #[trigger] squares@[k] == cell_square(
            *map, *cfg, k % (map.width as int), k / (map.width as int)),
{
    let w = map.width;
    let h = map.height;
    let mut squares: Vec<Square> = Vec::new();
    let mut row: usize = 0;
    while row < h
        invariant
            map.wf(),
            cfg.valid(),
            w == map.width,
            h == map.height,
            row <= h,
            squares@.len() == row * w,
            forall|k: int| 0 <= k < squares@.len() ==> #[trigger] squares@[k] == cell_square(
                *map, *cfg, k % (w as int), k / (w as int)),
        decreases h - row,
    {
        let mut col: usize = 0;
        while col < w
            invariant
                map.wf(),
                cfg.valid(),
                w == map.width,
                h == map.height,
                row < h,
                col <= w,
                squares@.len() == row * w + col,
                forall|k: int| 0 <= k < squares@.len() ==> #[trigger] squares@[k] == cell_square(
                    *map, *cfg, k % (w as int), k / (w as int)),
            decreases w - col,
        {
            let color = if map.is_wall(col, row) {
                Rgb { r: 255, g: 255, b: 255 }
            } else {
                Rgb { r: 0, g: 0, b: 0 }
            };
            let sq = Square::new(col as i64, row as i64, color, cfg);
            proof {
                lemma_fundamental_div_mod_converse((row * w + col) as int, w as int, row as int, col as int);
            }
            squares.push(sq);
            col += 1;
        }
        assert((row + 1) * w == row * w + w) by (nonlinear_arith);
        row += 1;
    }
    assert(h * w == w * h) by (nonlinear_arith);
    squares
}

/// Builds the overlay of one frame from the map, the player and the casts of
/// its fan of rays.
pub fn build_overlay(map: &GameMap, cfg: &Config, player: &Player, casts: &Vec<RayCast>) -> (o: Overlay)
    requires
        map.wf(),
        cfg.valid(),
        player.wf(),
        casts@.len() <= 4096,
    ensures
        o.squares@.len() == map.width * map.height,
        forall|k: int| 0 <= k < o.squares@.len() ==> #[trigger] o.squares@[k] == cell_square(
            *map, *cfg, k % (map.width as int), k / (map.width as int)),
        ({
            let size = 2 * cfg.collision_radius * SCALE;
            o.player_quad@ == seq![
                Point { x: player.x_pos, y: player.y_pos },
                Point { x: (player.x_pos + size) as i64, y: player.y_pos },
                Point { x: player.x_pos, y: (player.y_pos + size) as i64 },
                Point { x: (player.x_pos + size) as i64, y: (player.y_pos + size) as i64 },
            ]
        }),
        o.heading.from == (Point { x: origin_x(*cfg, *player) as i64, y: origin_y(*cfg, *player) as i64 }),
        o.heading.to == (Point {
            x: (origin_x(*cfg, *player) + 20 * player.x_dir) as i64,
            y: (origin_y(*cfg, *player) + 20 * player.y_dir) as i64,
        }),
        o.rays@.len() == 2 * casts@.len(),
        forall|i: int| 0 <= i < casts@.len() ==> {
            &&& #[trigger] o.rays@[2 * i] == (Segment { from: o.heading.from, to: casts@[i].h_end })
            &&& o.rays@[2 * i + 1] == (Segment { from: o.heading.from, to: casts@[i].v_end })
        },
{
    let squares = map_squares(map, cfg);
    let size: i64 = 2 * cfg.collision_radius * SCALE;
    let x = player.x_pos;
    let y = player.y_pos;
    let player_quad = [
        Point { x, y },
        Point { x: x + size, y },
        Point { x, y: y + size },
        Point { x: x + size, y: y + size },
    ];
    let origin = Point { x: x + cfg.collision_radius * SCALE, y: y + cfg.collision_radius * SCALE };
    let heading = Segment {
        from: origin,
        to: Point { x: origin.x + 20 * player.x_dir, y: origin.y + 20 * player.y_dir },
    };
    let mut rays: Vec<Segment> = Vec::new();
    let mut i: usize = 0;
    while i < casts.len()
        invariant
            casts@.len() <= 4096,
            i <= casts@.len(),
            rays@.len() == 2 * i,
            forall|j: int| 0 <= j < i ==> {
                &&& #[trigger] rays@[2 * j] == (Segment { from: origin, to: casts@[j].h_end })
                &&& rays@[2 * j + 1] == (Segment { from: origin, to: casts@[j].v_end })
            },
        decreases casts@.len() - i,
    {
        let ghost before = rays@;
        rays.push(Segment { from: origin, to: casts[i].h_end });
        rays.push(Segment { from: origin, to: casts[i].v_end });
        assert forall|j: int| 0 <= j <= i implies {
            &&& #[trigger] rays@[2 * j] == (Segment { from: origin, to: casts@[j].h_end })
            &&& rays@[2 * j + 1] == (Segment { from: origin, to: casts@[j].v_end })
        } by {
            if j < i {
                assert(before[2 * j] == (Segment { from: origin, to: casts@[j].h_end }));
            }
        }
        i += 1;
    }
    assert(player_quad@ =~= seq![
        Point { x: player.x_pos, y: player.y_pos },
        Point { x: (player.x_pos + size) as i64, y: player.y_pos },
        Point { x: player.x_pos, y: (player.y_pos + size) as i64 },
        Point { x: (player.x_pos + size) as i64, y: (player.y_pos + size) as i64 },
    ]);
    Overlay { squares, player_quad, heading, rays }
}

} // verus!
