use vstd::prelude::*;

verus! {

/// Fixed-point scale: one world unit is this many fixed units.
pub const SCALE: i64 = 10000;

/// Angle units in a full turn (minutes of arc).
pub const TURN: u32 = 21600;

pub const HALF_TURN: u32 = 10800;

pub const QUARTER_TURN: u32 = 5400;

pub const THREE_QUARTER_TURN: u32 = 16200;

/// Largest number of grid-line steps a single march may take.
pub const MAX_DEPTH: u32 = 8;

/// Length, in cells, of the probe that stands in for the grid-line family
/// parallel to an axis-aligned ray. It is longer than the other family's
/// march can reach, so the probe never decides the ray.
pub const PROBE_CELLS: i64 = 10;

/// Smallest positive fixed-point length: the nudge off a grid line and the
/// floor applied to distances before projection.
pub const EPSILON: i64 = 1;

/// Bound on the magnitude of any fixed-point position handled by the engine.
pub const COORD_LIMIT: i64 = 1000000000000;

/// Bound on the magnitude of a fixed-point tangent or cotangent.
pub const TRIG_LIMIT: i64 = 100000000;

/// Bound on the magnitude of one march step, in fixed units.
pub const STEP_LIMIT: i64 = 1024 * TRIG_LIMIT;

/// Bound on the magnitude of a ray origin.
pub const ORIGIN_LIMIT: i64 = 2 * COORD_LIMIT;

/// Bound on the magnitude of the first grid-line crossing of a march.
pub const START_LIMIT: i64 = ORIGIN_LIMIT + 3 * STEP_LIMIT;

pub const WIDTH: u32 = 1280;

pub const HEIGHT: u32 = 700;

pub const MAP_X: usize = 8;

pub const MAP_Y: usize = 8;

/// Edge of one map cell, in world units.
pub const MAP_S: i64 = 64;

pub const RENDER_X: usize = 360;

pub const RENDER_Y: usize = 360;

pub const RAYS_COUNT: usize = 360;

/// Horizontal field of view choices.
#[derive(Clone, Copy, Debug, PartialEq, Eq, Structural)]
pub enum FieldOfView {
    Narrow,
    Normal,
    Wide,
    UltraWide,
    /// An explicit angle in minutes of arc.
    Custom(u32),
}

impl FieldOfView {
    pub open spec fn angle_spec(self) -> nat {
        match self {
            FieldOfView::Narrow => 2700,
            FieldOfView::Normal => 3600,
            FieldOfView::Wide => 5400,
            FieldOfView::UltraWide => 7200,
            FieldOfView::Custom(a) => a as nat,
        }
    }

    /// The field of view in minutes of arc.
    pub fn to_angle(self) -> (r: u32)
        ensures
            r == self.angle_spec(),
    {
        match self {
            FieldOfView::Narrow => 2700,
            FieldOfView::Normal => 3600,
            FieldOfView::Wide => 5400,
            FieldOfView::UltraWide => 7200,
            FieldOfView::Custom(a) => a,
        }
    }
}

/// Tunable parameters of the ray caster and the projector.
#[derive(Clone, Copy, Debug, PartialEq, Eq, Structural)]
pub struct Config {
    /// Edge of a map cell, in world units.
    pub cell_size: i64,
    pub rays_count: usize,
    pub render_x: usize,
    pub render_y: usize,
    /// Field of view in minutes of arc.
    pub fov: u32,
    /// World wall-height scale of the projection.
    pub wall_scale: u64,
    /// Offset from the player's position to the ray origin, in world units.
    pub collision_radius: i64,
}

impl Config {
    pub open spec fn valid(&self) -> bool {
        &&& 1 <= self.cell_size <= 1024
        &&& 1 <= self.rays_count <= 4096
        &&& 1 <= self.render_x <= 4096
        &&& 1 <= self.render_y <= 4096
        &&& 0 < self.fov < HALF_TURN
        &&& self.wall_scale <= 1000
        &&& 0 <= self.collision_radius <= 1024
    }

    /// Whether the parameters are within the ranges the engine handles.
    pub fn is_valid(&self) -> (b: bool)
        ensures
            b == self.valid(),
    {
        1 <= self.cell_size && self.cell_size <= 1024 && 1 <= self.rays_count && self.rays_count
            <= 4096 && 1 <= self.render_x && self.render_x <= 4096 && 1 <= self.render_y
            && self.render_y <= 4096 && 0 < self.fov && self.fov < HALF_TURN && self.wall_scale
            <= 1000 && 0 <= self.collision_radius && self.collision_radius <= 1024
    }

    /// Cell edge in fixed units.
    pub open spec fn cell_units(&self) -> int {
        self.cell_size * SCALE
    }

    /// The configuration of the shipped game.
    pub fn standard() -> (c: Config)
        ensures
            c.valid(),
            c.cell_size == MAP_S,
            c.rays_count == RAYS_COUNT,
            c.render_x == RENDER_X,
            c.render_y == RENDER_Y,
            c.fov == FieldOfView::Normal.angle_spec(),
            c.wall_scale == 20,
            c.collision_radius == 4,
    {
        Config {
            cell_size: MAP_S,
            rays_count: RAYS_COUNT,
            render_x: RENDER_X,
            render_y: RENDER_Y,
            fov: FieldOfView::Normal.to_angle(),
            wall_scale: 20,
            collision_radius: 4,
        }
    }
}

} // verus!
