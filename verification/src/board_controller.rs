//! The per-frame orchestration of one session.
//!
//! A caller's event loop feeds elapsed time in through [`BoardController::resolve_death`]
//! followed by [`BoardController::advance`]: death first resets the session,
//! then one frame precomputes the candidate next head, settles gates and
//! food against it, and runs the snake's tick.
use vstd::prelude::*;
use crate::board::{spec_cell_free, spec_cell_occupied, spec_grid_cells, Board};
use crate::config::{GlobalConfig, MOVE_DELAY_DEN};
use crate::food::Food;
use crate::game_mode::Mode;
use crate::portal::{spec_any_used, spec_gate_hit, Portal};
use crate::score::Score;
use crate::snake::{
    pts, spec_initial_body, spec_initial_len, spec_is_dead, spec_max_distance, spec_next_point,
    spec_tick, Snake, SnakeModel, NANOS_PER_SEC,
};
use crate::units::{lemma_div_bounds, spec_round_cell};

verus! {

/// The far edge of the board in sub-units, as the snake's death and wrap
/// tests use it.
pub open spec fn spec_board_max_distance(b: Board) -> int {
    spec_max_distance(
        b.config.computed_config.board_size as int,
        b.config.computed_config.block_size as int,
        b.snake.model().scale,
    )
}

/// The candidate next head this frame hands to the snake.
pub open spec fn spec_candidate_head(b: Board) -> (int, int) {
    spec_next_point(
        b.snake.model().head(),
        b.snake.direction,
        b.snake.model().step,
        spec_board_max_distance(b),
        b.game_mode.wall,
    )
}

/// Whether this frame's candidate head eats the active food.
pub open spec fn spec_tick_eats(b: Board) -> bool {
    &&& b.food.exists
    &&& spec_round_cell(spec_candidate_head(b).0, b.snake.model().scale) == b.food.x
    &&& spec_round_cell(spec_candidate_head(b).1, b.snake.model().scale) == b.food.y
}

/// Whether this frame's candidate head enters an unused gate.
pub open spec fn spec_takes_gate(b: Board) -> bool {
    &&& b.game_mode.mode == Mode::Portal
    &&& b.portal matches Some(p) && exists|i: int|
        0 <= i < p.gates@.len() && spec_gate_hit(
            #[trigger] p.gates@[i],
            (
                spec_round_cell(spec_candidate_head(b).0, b.snake.model().scale),
                spec_round_cell(spec_candidate_head(b).1, b.snake.model().scale),
            ),
        )
}

/// The configured move delay in nanoseconds: `level / MOVE_DELAY_DEN`
/// seconds.
pub open spec fn spec_move_delay_nanos(b: Board) -> int {
    b.config.computed_config.move_delay_num * (NANOS_PER_SEC as int / MOVE_DELAY_DEN as int)
}

/// Whether `c` is free on the fresh board a session reset builds from
/// `cfg`: an interior cell covered by neither the initial body nor the seed
/// food.
pub open spec fn spec_fresh_cell_free(cfg: GlobalConfig, c: (int, int)) -> bool {
    let n = cfg.computed_config.board_size as int / cfg.computed_config.block_size as int - 1;
    let scale = cfg.computed_config.spec_scale();
    let step = cfg.computed_config.spec_step();
    &&& spec_grid_cells(n).contains(c)
    &&& !spec_cell_occupied(
        c,
        spec_initial_body(4 * scale, 4 * scale, step, spec_initial_len(scale, step)),
        (Food { x: 15, y: 15, exists: true }),
        None,
        scale,
    )
}

/// Drives one session's board and score.
pub struct BoardController {
    pub board: Board,
    pub score: Score,
}

impl BoardController {
    /// Adopt a fresh board; in Portal mode, generate the session's gate
    /// pair for it.
    pub fn new(board: Board, score: Score) -> (c: BoardController)
        requires
            board.wf(),
            board.game_mode.mode == Mode::Portal ==> exists|a: (int, int), b: (int, int)|
                #![auto]
                spec_cell_free(board, a) && spec_cell_free(board, b) && a != b,
        ensures
            c.score == score,
            c.board == (Board { portal: c.board.portal, ..board }),
            board.game_mode.mode != Mode::Portal ==> c.board.portal == board.portal,
            board.game_mode.mode == Mode::Portal ==> (c.board.portal matches Some(p) && {
                &&& p.gates@.len() == 2
                &&& !p.gates@[0].used
                &&& !p.gates@[1].used
                &&& spec_cell_free(board, (p.gates@[0].x as int, p.gates@[0].y as int))
                &&& spec_cell_free(board, (p.gates@[1].x as int, p.gates@[1].y as int))
                &&& (p.gates@[1].x, p.gates@[1].y) != (p.gates@[0].x, p.gates@[0].y)
                &&& p.cells_ok()
            }),
            c.board.wf(),
    {
        let mut board = board;
        if board.game_mode.mode == Mode::Portal {
            let portal = Portal::new(&board);
            board.portal = Some(portal);
        }
        BoardController { board, score }
    }

    /// A replacement food on a free cell, computed from the current board.
    pub fn get_next_food(&self) -> (r: Option<Food>)
        requires
            self.board.wf(),
            exists|a: (int, int)| #[trigger] spec_cell_free(self.board, a),
        ensures
            r matches Some(f) && f.exists && spec_cell_free(
                self.board,
                (f.x as int, f.y as int),
            ),
    {
        let scale = self.board.snake.frame_handler.scale() as i64;
        let free = self.board.grid.remove_occupied_positions(
            &self.board.snake.body,
            &self.board.food,
            None,
            scale,
        );
        proof {
            let a = choose|a: (int, int)| #[trigger] spec_cell_free(self.board, a);
            assert(free.model().contains(a));
            assert(free.model().len() > 0);
        }
        let (new_x, new_y) = free.get_random_position();
        proof {
            let j = choose|j: int|
                0 <= j < free.model().len() && free.model()[j] == ((new_x as int, new_y as int));
            assert(free.model()[j] == ((new_x as int, new_y as int)));
            assert(self.board.grid.model().contains(free.model()[j]));
        }
        Some(Food { x: new_x, y: new_y, exists: true })
    }

    /// If the snake is dead, reset the session: count the death, zero the
    /// running score, and build a fresh board, snake, food and grid (plus,
    /// in Portal mode, fresh gates) from the same settings.
    pub fn resolve_death(&mut self)
        requires
            old(self).board.wf(),
            old(self).score.death.count < u32::MAX,
            spec_initial_len(
                old(self).board.config.computed_config.spec_scale(),
                old(self).board.config.computed_config.spec_step(),
            ) >= 1,
            old(self).board.game_mode.mode == Mode::Portal ==> exists|
                a: (int, int),
                b: (int, int),
            |
                #![auto]
                spec_fresh_cell_free(old(self).board.config, a) && spec_fresh_cell_free(
                    old(self).board.config,
                    b,
                ) && a != b,
        ensures
            final(self).board.wf(),
            ({
                let dead = spec_is_dead(
                    old(self).board.snake.model(),
                    spec_board_max_distance(old(self).board),
                );
                &&& !dead ==> *final(self) == *old(self)
                &&& dead ==> {
                    let cc = old(self).board.config.computed_config;
                    &&& final(self).score.death.count == old(self).score.death.count + 1
                    &&& final(self).score.current.count == 0
                    &&& final(self).score.best == old(self).score.best
                    &&& final(self).board.config.computed_config == cc
                    &&& final(self).board.config.config.board == old(
                        self,
                    ).board.config.config.board
                    &&& final(self).board.game_mode == old(self).board.game_mode
                    &&& final(self).board.snake.model().body == spec_initial_body(
                        4 * cc.spec_scale(),
                        4 * cc.spec_scale(),
                        cc.spec_step(),
                        spec_initial_len(cc.spec_scale(), cc.spec_step()),
                    )
                    &&& final(self).board.snake.direction == crate::snake::Direction::Right
                    &&& final(self).board.snake.request_direction == crate::snake::Direction::Right
                    &&& final(self).board.snake.request_position is None
                    &&& !final(self).board.snake.just_eat
                    &&& final(self).board.snake.next_head is None
                    &&& final(self).board.snake.blocks_to_add == 0
                    &&& final(self).board.snake.jump is None
                    &&& final(self).board.snake.frame_handler.current_delta == 0
                    &&& final(self).board.food == (Food { x: 15, y: 15, exists: true })
                    &&& final(self).board.next_food is None
                    &&& final(self).board.current_delta == 0
                    &&& final(self).board.grid.model() == spec_grid_cells(
                        cc.board_size as int / cc.block_size as int - 1,
                    )
                    &&& old(self).board.game_mode.mode != Mode::Portal ==> final(self).board.portal is None
                    &&& old(self).board.game_mode.mode == Mode::Portal ==> (final(self).board.portal matches Some(p) && {
                        &&& p.gates@.len() == 2
                        &&& !p.gates@[0].used
                        &&& !p.gates@[1].used
                        &&& spec_fresh_cell_free(
                            old(self).board.config,
                            (p.gates@[0].x as int, p.gates@[0].y as int),
                        )
                        &&& spec_fresh_cell_free(
                            old(self).board.config,
                            (p.gates@[1].x as int, p.gates@[1].y as int),
                        )
                        &&& (p.gates@[1].x, p.gates@[1].y) != (p.gates@[0].x, p.gates@[0].y)
                    })
                }
            }),
    {
        let board_size = self.board.config.computed_config.board_size;
        let block_size = self.board.config.computed_config.block_size;
        proof {
            lemma_div_bounds(board_size as int, block_size as int);
        }
        if self.board.snake.is_dead(board_size, block_size) {
            self.score.reset();
            let config = self.board.config.duplicate();
            let game_mode = self.board.game_mode;
            let fresh = Board::new(config, game_mode);
            self.board = fresh;
            if self.board.game_mode.mode == Mode::Portal {
                let ghost bcall = self.board;
                proof {
                    let cfg = old(self).board.config;
                    assert forall|c: (int, int)| #[trigger] spec_cell_free(bcall, c)
                        == spec_fresh_cell_free(cfg, c) by {
                        assert(bcall.grid.model() == spec_grid_cells(
                            cfg.computed_config.board_size as int
                                / cfg.computed_config.block_size as int - 1,
                        ));
                        assert(pts(bcall.snake.body@) == spec_initial_body(
                            4 * cfg.computed_config.spec_scale(),
                            4 * cfg.computed_config.spec_scale(),
                            cfg.computed_config.spec_step(),
                            spec_initial_len(
                                cfg.computed_config.spec_scale(),
                                cfg.computed_config.spec_step(),
                            ),
                        ));
                    }
                    let (a, b) = choose|a: (int, int), b: (int, int)|
                        #![auto]
                        spec_fresh_cell_free(cfg, a) && spec_fresh_cell_free(cfg, b) && a != b;
                    assert(spec_cell_free(bcall, a) && spec_cell_free(bcall, b));
                }
                let portal = Portal::new(&self.board);
                self.board.portal = Some(portal);
            }
        }
    }

    /// One frame: accumulate the move-delay clock, hand the snake its
    /// candidate next head, settle gate entry and food against it, and run
    /// the snake's tick.
    pub fn advance(&mut self, delta_time: u64)
        requires
            old(self).board.wf(),
            old(self).board.current_delta + delta_time <= u64::MAX,
            old(self).board.snake.frame_handler.current_delta + delta_time <= u64::MAX,
            old(self).board.snake.blocks_to_add + old(
                self,
            ).board.snake.model().growth_per_cell() <= u32::MAX,
            old(self).score.current.count < u32::MAX,
            Snake::point_op_ok(old(self).board.snake.model().head()),
            (old(self).board.snake.model().request_position matches Some(a)
                ==> Snake::point_op_ok(a)),
            spec_tick_eats(old(self).board) ==> exists|a: (int, int)|
                #[trigger] spec_cell_free(old(self).board, a),
        ensures
            final(self).board.wf(),
            ({
                let b0 = old(self).board;
                let nh = spec_candidate_head(b0);
                let eats = spec_tick_eats(b0);
                let fires = b0.snake.frame_handler.current_delta + delta_time
                    >= b0.snake.frame_handler.spec_frame_time();
                &&& final(self).board.config == b0.config
                &&& final(self).board.game_mode == b0.game_mode
                &&& final(self).board.grid == b0.grid
                &&& final(self).board.current_delta == if b0.current_delta + delta_time
                    >= spec_move_delay_nanos(b0) {
                    0int
                } else {
                    b0.current_delta + delta_time
                }
                &&& eats ==> final(self).score.current.count == old(self).score.current.count + 1
                    && final(self).score.death == old(self).score.death
                &&& !eats ==> final(self).score == old(self).score
                &&& eats ==> final(self).board.food.exists && spec_cell_free(
                    b0,
                    (final(self).board.food.x as int, final(self).board.food.y as int),
                ) && final(self).board.next_food is None
                &&& !eats ==> final(self).board.food == b0.food && final(self).board.next_food
                    == b0.next_food
                &&& !spec_takes_gate(b0) ==> {
                    let s1 = SnakeModel {
                        next_head: Some(nh),
                        just_eat: b0.snake.just_eat || eats,
                        ..b0.snake.model()
                    };
                    &&& (final(self).board.portal is Some <==> b0.portal is Some)
                    &&& (final(self).board.portal matches Some(p2) ==> b0.portal matches Some(p1)
                        && p2.gates@ == p1.gates@ && p2.next == p1.next)
                    &&& fires ==> final(self).board.snake.model() == spec_tick(s1) && final(self).board.snake.frame_handler.current_delta == 0
                    &&& !fires ==> final(self).board.snake.model() == s1 && final(self).board.snake.frame_handler.current_delta
                        == b0.snake.frame_handler.current_delta + delta_time
                }
                &&& spec_takes_gate(b0) ==> {
                    &&& (b0.portal matches Some(p1) && final(self).board.portal matches Some(p2)
                        && p2.gates@.len() == p1.gates@.len() && spec_any_used(p2.gates@))
                    &&& fires ==> exists|s1: SnakeModel|
                        #![trigger spec_tick(s1)]
                        {
                            &&& s1 == (SnakeModel {
                                next_head: Some(nh),
                                just_eat: b0.snake.just_eat || eats,
                                jump: s1.jump,
                                ..b0.snake.model()
                            })
                            &&& final(self).board.snake.model() == spec_tick(s1)
                        }
                }
            }),
    {
        let board_size = self.board.config.computed_config.board_size;
        let block_size = self.board.config.computed_config.block_size;
        let ghost b0 = self.board;
        proof {
            lemma_div_bounds(board_size as int, block_size as int);
        }

        self.board.current_delta = self.board.current_delta + delta_time;
        proof {
            assert(self.board.config.computed_config.move_delay_num * ((NANOS_PER_SEC
                / MOVE_DELAY_DEN) as int) <= 4096 * (NANOS_PER_SEC / MOVE_DELAY_DEN) as int)
                by (nonlinear_arith)
                requires
                    1 <= self.board.config.computed_config.move_delay_num <= 4096,
            ;
        }
        let move_delay_nanos = self.board.config.computed_config.move_delay_num * (NANOS_PER_SEC
            / MOVE_DELAY_DEN);
        if move_delay_nanos <= self.board.current_delta {
            self.board.current_delta = 0;
        }

        let next = self.board.snake.get_next_point(board_size, block_size);
        self.board.snake.next_head = Some(next);

        if self.board.game_mode.mode == Mode::Portal {
            let mut took: bool = false;
            if let Some(portal) = &mut self.board.portal {
                took = self.board.snake.next_move_take_gate(portal);
                if took && portal.has_unused() {
                    proof {
                        assert(portal.cells_ok());
                    }
                    self.board.snake.teleport(portal);
                }
            }
        }

        if self.board.snake.next_move_eat(&self.board.food) {
            proof {
                assert(spec_tick_eats(b0));
                assert forall|a: (int, int)| #[trigger] spec_cell_free(b0, a) implies
                    spec_cell_free(self.board, a) by {}
                let a = choose|a: (int, int)| #[trigger] spec_cell_free(b0, a);
                assert(spec_cell_free(self.board, a));
            }
            let new_food = self.get_next_food();
            proof {
                let f = new_food.unwrap();
                assert forall|a: (int, int)| #[trigger] spec_cell_free(self.board, a) implies
                    spec_cell_free(b0, a) by {}
                assert(spec_cell_free(b0, (f.x as int, f.y as int)));
            }
            self.board.food = new_food.unwrap();
            self.board.next_food = None;
            self.board.snake.just_eat = true;
            self.score.update_score();
        }

        proof {
            let nh = spec_candidate_head(b0);
            let eats = spec_tick_eats(b0);
            if !spec_takes_gate(b0) {
                assert(self.board.snake.model() == (SnakeModel {
                    next_head: Some(nh),
                    just_eat: b0.snake.just_eat || eats,
                    ..b0.snake.model()
                }));
            } else {
                assert(self.board.snake.model() == (SnakeModel {
                    next_head: Some(nh),
                    just_eat: b0.snake.just_eat || eats,
                    jump: self.board.snake.model().jump,
                    ..b0.snake.model()
                }));
            }
        }
        self.board.snake.update(delta_time);
    }
}

} // verus!
