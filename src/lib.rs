//! A grid ray caster: marches rays through a tile map in fixed-point
//! arithmetic and projects the hit distances into a column-filled pixel buffer.

pub mod config;
pub mod fixed;
pub mod grid;
pub mod trig;
pub mod player;
pub mod caster;
pub mod projector;
pub mod movement;
pub mod overlay;
