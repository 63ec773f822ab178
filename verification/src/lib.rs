//! Movement and collision kernel of a grid snake game.
//!
//! The board is a square of cells. A snake advances at sub-cell resolution:
//! every coordinate is an exact integer count of *sub-units*, where `scale`
//! sub-units make one cell, so a fractional position like 4.35 cells is the
//! integer 4.35 * scale. All kinematics (straight advance, buffered turns
//! that commit only at cell boundaries, growth queued per eaten food, wall
//! wrapping, self-collision) are exact integer arithmetic on sub-units and
//! are verified. Food, gates and grid cells live on whole cells.
use vstd::prelude::*;

pub mod board;
pub mod board_controller;
pub mod config;
pub mod food;
pub mod game_mode;
pub mod portal;
pub mod rng;
pub mod score;
pub mod snake;
pub mod units;
