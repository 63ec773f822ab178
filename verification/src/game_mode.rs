//! Session mode flags parsed from the settings strings.
use vstd::prelude::*;
use crate::config::GlobalConfig;

verus! {

/// Whether teleport gates are in play.
#[derive(Clone, Copy, PartialEq, Eq, Structural)]
pub enum Mode {
    Default,
    Portal,
}

/// What happens at the board edge: `Solid` leaves the head out of range (a
/// later death check catches it), `Fluid` wraps it to the opposite edge.
#[derive(Clone, Copy, PartialEq, Eq, Structural)]
pub enum Wall {
    Fluid,
    Solid,
}

#[derive(Clone, Copy, PartialEq, Eq, Structural)]
pub struct GameMode {
    pub mode: Mode,
    pub wall: Wall,
}

/// The mode a settings string names; anything unrecognized is `Default`.
pub open spec fn spec_mode_of(s: Seq<char>) -> Mode {
    if s == "portal"@ {
        Mode::Portal
    } else {
        Mode::Default
    }
}

/// The wall behaviour a settings string names; anything unrecognized is
/// `Solid`.
pub open spec fn spec_wall_of(s: Seq<char>) -> Wall {
    if s == "fluid"@ {
        Wall::Fluid
    } else {
        Wall::Solid
    }
}

impl GameMode {
    pub fn new(config: &GlobalConfig) -> (g: GameMode)
        ensures
            g.mode == spec_mode_of(config.config.game.mode@),
            g.wall == spec_wall_of(config.config.game.wall@),
    {
        let portal: String = "portal".to_owned();
        let fluid: String = "fluid".to_owned();
        let mode = if config.config.game.mode == portal {
            Mode::Portal
        } else {
            Mode::Default
        };
        let wall = if config.config.game.wall == fluid {
            Wall::Fluid
        } else {
            Wall::Solid
        };
        GameMode { mode, wall }
    }
}

} // verus!
