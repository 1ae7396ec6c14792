use vstd::prelude::*;
use crate::config::{COORD_LIMIT, SCALE, TURN};
use crate::trig::{norm_angle, normalize_angle};

verus! {

/// The viewpoint: a fixed-point position, a facing angle in `[0, TURN)` and a
/// fixed-point unit direction vector kept in step with the angle by the caller.
#[derive(Clone, Copy, Debug, PartialEq, Eq, Structural)]
pub struct Player {
    pub x_pos: i64,
    pub y_pos: i64,
    pub player_dir: u32,
    pub x_dir: i64,
    pub y_dir: i64,
}

pub open spec fn coord_ok(v: int) -> bool {
    -COORD_LIMIT <= v <= COORD_LIMIT
}

/// A fixed-point direction component: within one unit of zero.
pub open spec fn unit_ok(v: int) -> bool {
    -SCALE <= v <= SCALE
}

impl Player {
    pub open spec fn wf(&self) -> bool {
        &&& coord_ok(self.x_pos as int)
        &&& coord_ok(self.y_pos as int)
        &&& self.player_dir < TURN
        &&& unit_ok(self.x_dir as int)
        &&& unit_ok(self.y_dir as int)
    }

    /// A player at `(x, y)` facing angle zero, its direction vector `(1, 0)`.
    pub fn new(x: i64, y: i64) -> (p: Player)
        requires
            coord_ok(x as int),
            coord_ok(y as int),
        ensures
            p.wf(),
            p == (Player { x_pos: x, y_pos: y, player_dir: 0, x_dir: SCALE, y_dir: 0 }),
    {
        Player { x_pos: x, y_pos: y, player_dir: 0, x_dir: SCALE, y_dir: 0 }
    }

    pub fn update_pos(&mut self, x: i64, y: i64)
        requires
            old(self).wf(),
            coord_ok(x as int),
            coord_ok(y as int),
        ensures
            *final(self) == (Player { x_pos: x, y_pos: y, ..*old(self) }),
            final(self).wf(),
    {
        self.update_x_pos(x);
        self.update_y_pos(y);
    }

    pub fn update_x_pos(&mut self, x: i64)
        requires
            old(self).wf(),
            coord_ok(x as int),
        ensures
            *final(self) == (Player { x_pos: x, ..*old(self) }),
            final(self).wf(),
    {
        self.x_pos = x;
    }

    pub fn update_y_pos(&mut self, y: i64)
        requires
            old(self).wf(),
            coord_ok(y as int),
        ensures
            *final(self) == (Player { y_pos: y, ..*old(self) }),
            final(self).wf(),
    {
        self.y_pos = y;
    }

    /// Sets the facing angle, brought into `[0, TURN)`.
    pub fn update_dir(&mut self, new_dir: i64)
        requires
            old(self).wf(),
        ensures
            *final(self) == (Player { player_dir: norm_angle(new_dir as int) as u32, ..*old(self) }),
            final(self).wf(),
    {
        self.player_dir = normalize_angle(new_dir);
    }

    pub fn update_x_dir(&mut self, new_dir: i64)
        requires
            old(self).wf(),
            unit_ok(new_dir as int),
        ensures
            *final(self) == (Player { x_dir: new_dir, ..*old(self) }),
            final(self).wf(),
    {
        self.x_dir = new_dir;
    }

    pub fn update_y_dir(&mut self, new_dir: i64)
        requires
            old(self).wf(),
            unit_ok(new_dir as int),
        ensures
            *final(self) == (Player { y_dir: new_dir, ..*old(self) }),
            final(self).wf(),
    {
        self.y_dir = new_dir;
    }

    pub fn get_dir(&self) -> (r: u32)
        ensures
            r == self.player_dir,
    {
        self.player_dir
    }

    pub fn get_x_dir(&self) -> (r: i64)
        ensures
            r == self.x_dir,
    {
        self.x_dir
    }

    pub fn get_y_dir(&self) -> (r: i64)
        ensures
            r == self.y_dir,
    {
        self.y_dir
    }
}

} // verus!
