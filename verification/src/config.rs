//! Session configuration.
//!
//! `Config` holds the plain values a caller loads from its settings source;
//! `ComputedConfig` derives the quantities the kernel works with. The move
//! delay is the rational `level / MOVE_DELAY_DEN`; together with the frame
//! rate it fixes the sub-unit grid: `scale = fps * MOVE_DELAY_DEN` sub-units
//! per cell, and a per-tick move distance of `block_size * level` sub-units,
//! which equals `block_size / fps * move_delay` cells exactly.
use vstd::prelude::*;

verus! {

/// Denominator of the level-to-move-delay map: the delay is `level / 10`.
pub const MOVE_DELAY_DEN: u64 = 10;

/// Bound on every configured quantity; keeps all derived arithmetic well
/// inside `i64`.
pub const CONFIG_LIMIT: u32 = 4096;

/// Game rules as plain settings values.
pub struct Game {
    pub mode: String,
    pub wall: String,
    pub level: u32,
}

/// Board dimensions as plain settings values.
pub struct Board {
    pub board_block_length: u32,
    pub block_size: u32,
}

/// The settings a caller supplies for one session.
pub struct Config {
    pub board: Board,
    pub game: Game,
}

impl Config {
    /// Admissible settings: positive and small enough that every derived
    /// quantity fits the kernel's coordinate bounds.
    pub open spec fn wf(self) -> bool {
        &&& 1 <= self.board.board_block_length <= CONFIG_LIMIT
        &&& 1 <= self.board.block_size <= CONFIG_LIMIT
        &&& 1 <= self.game.level <= CONFIG_LIMIT
    }

    /// A field-for-field copy.
    pub fn duplicate(&self) -> (c: Config)
        ensures
            c.board == self.board,
            c.game.level == self.game.level,
            c.game.mode@ == self.game.mode@,
            c.game.wall@ == self.game.wall@,
    {
        Config {
            board: Board {
                board_block_length: self.board.board_block_length,
                block_size: self.board.block_size,
            },
            game: Game {
                mode: self.game.mode.clone(),
                wall: self.game.wall.clone(),
                level: self.game.level,
            },
        }
    }
}

/// Quantities derived from the settings, in the kernel's units.
#[derive(Clone, Copy, PartialEq, Eq, Structural, Debug)]
pub struct ComputedConfig {
    /// Board side in pixels: `block_size * board_block_length`.
    pub board_size: u64,
    /// Cell side in pixels.
    pub block_size: u64,
    /// Numerator of the move delay; the denominator is `MOVE_DELAY_DEN`.
    pub move_delay_num: u64,
    /// Width of the score pane in pixels.
    pub score_size: u64,
    /// Simulation frames per second.
    pub fps: u64,
}

impl ComputedConfig {
    pub open spec fn wf(self) -> bool {
        &&& 1 <= self.block_size <= CONFIG_LIMIT
        &&& 1 <= self.move_delay_num <= CONFIG_LIMIT
        &&& 1 <= self.fps <= CONFIG_LIMIT
        &&& self.block_size <= self.board_size <= CONFIG_LIMIT * CONFIG_LIMIT
    }

    /// Sub-units per cell.
    pub open spec fn spec_scale(self) -> int {
        self.fps * MOVE_DELAY_DEN
    }

    /// Move distance per tick, in sub-units.
    pub open spec fn spec_step(self) -> int {
        self.block_size * self.move_delay_num
    }

    pub fn new(config: &Config) -> (c: ComputedConfig)
        requires
            config.wf(),
        ensures
            c.board_size == config.board.block_size * config.board.board_block_length,
            c.block_size == config.board.block_size,
            c.move_delay_num == config.game.level,
            c.score_size == 150,
            c.fps == 60,
            c.wf(),
    {
        proof {
            assert(config.board.block_size <= config.board.block_size
                * config.board.board_block_length <= CONFIG_LIMIT * CONFIG_LIMIT)
                by (nonlinear_arith)
                requires
                    1 <= config.board.block_size <= CONFIG_LIMIT,
                    1 <= config.board.board_block_length <= CONFIG_LIMIT,
            ;
        }
        ComputedConfig {
            board_size: (config.board.block_size as u64) * (config.board.board_block_length as u64),
            block_size: config.board.block_size as u64,
            move_delay_num: config.game.level as u64,
            score_size: 150,
            fps: 60,
        }
    }
}

/// The settings together with their derived quantities.
pub struct GlobalConfig {
    pub computed_config: ComputedConfig,
    pub config: Config,
}

impl GlobalConfig {
    pub open spec fn wf(self) -> bool {
        &&& self.config.wf()
        &&& self.computed_config.wf()
    }

    pub fn new(config: Config) -> (g: GlobalConfig)
        requires
            config.wf(),
        ensures
            g.computed_config.board_size == config.board.block_size
                * config.board.board_block_length,
            g.computed_config.block_size == config.board.block_size,
            g.computed_config.move_delay_num == config.game.level,
            g.computed_config.score_size == 150,
            g.computed_config.fps == 60,
            g.config == config,
            g.wf(),
    {
        let computed_config = ComputedConfig::new(&config);
        GlobalConfig { computed_config, config }
    }

    /// A field-for-field copy.
    pub fn duplicate(&self) -> (g: GlobalConfig)
        ensures
            g.computed_config == self.computed_config,
            g.config.board == self.config.board,
            g.config.game.level == self.config.game.level,
            g.config.game.mode@ == self.config.game.mode@,
            g.config.game.wall@ == self.config.game.wall@,
    {
        GlobalConfig { computed_config: self.computed_config, config: self.config.duplicate() }
    }
}

} // verus!
