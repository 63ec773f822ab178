//! The snake state machine and its kinematics.
//!
//! A snake is an ordered body of sub-unit points, head first, together with
//! the committed and the requested direction, a turn anchor, a pending-growth
//! counter and an optional in-flight teleport. One simulation tick fires when
//! the frame accumulator crosses one frame's worth of time; its whole effect
//! on the kinematic state is the spec transition [`spec_tick`], which the
//! executable [`Snake::update`] is proved to implement exactly.
use vstd::prelude::*;
use crate::config::{ComputedConfig, MOVE_DELAY_DEN};
use crate::food::Food;
use crate::game_mode::{GameMode, Wall};
use crate::portal::{spec_any_unused, spec_gate_hit, Gate, Portal};
use crate::units::{
    spec_round_cell, spec_trunc_cell, spec_ceil_div, coord_op_ok, round_cell, trunc_cell,
    ceil_div, lemma_round_cell_bound, lemma_round_cell_near, lemma_ceil_div_le, CELL_LIMIT,
    SCALE_LIMIT, STEP_LIMIT,
    COORD_OP_LIMIT,
};

verus! {

/// Nanoseconds in one second; the unit of the frame accumulator.
pub const NANOS_PER_SEC: u64 = 1_000_000_000;

#[derive(Clone, Copy, PartialEq, Eq, Structural)]
pub enum Direction {
    Up,
    Down,
    Left,
    Right,
}

impl Direction {
    /// The reverse of a direction; total and involutive.
    pub open spec fn spec_opposite(self) -> Direction {
        match self {
            Direction::Up => Direction::Down,
            Direction::Down => Direction::Up,
            Direction::Left => Direction::Right,
            Direction::Right => Direction::Left,
        }
    }

    pub fn opposite(&self) -> (d: Direction)
        ensures
            d == self.spec_opposite(),
    {
        match *self {
            Direction::Up => Direction::Down,
            Direction::Down => Direction::Up,
            Direction::Left => Direction::Right,
            Direction::Right => Direction::Left,
        }
    }
}

/// A position in sub-units: `scale` sub-units make one cell, so fractional
/// cell positions are exact integers here.
#[derive(Clone, Copy, PartialEq, Eq, Structural)]
pub struct Point {
    pub x: i64,
    pub y: i64,
}

/// The pair of `int` coordinates a point stands for.
pub open spec fn pt(p: Point) -> (int, int) {
    (p.x as int, p.y as int)
}

pub open spec fn opt_pt(o: Option<Point>) -> Option<(int, int)> {
    match o {
        Some(p) => Some(pt(p)),
        None => None,
    }
}

pub open spec fn pair_int(q: (i64, i64)) -> (int, int) {
    (q.0 as int, q.1 as int)
}

/// The integer pairs a sequence of points stands for.
pub open spec fn pts(s: Seq<Point>) -> Seq<(int, int)> {
    s.map_values(|p: Point| pt(p))
}

/// The in-flight teleport record: the destination still to be applied, and
/// the destination kept for tail bookkeeping once applied.
#[derive(Clone, Copy)]
pub struct Jump {
    pub gate_head: Option<Point>,
    pub is_jumping: bool,
    pub gate_end_position: Option<(i64, i64)>,
}

/// Ghost image of a [`Jump`].
pub ghost struct JumpModel {
    pub gate_head: Option<(int, int)>,
    pub is_jumping: bool,
    pub gate_end_position: Option<(int, int)>,
}

pub open spec fn jump_model(j: Jump) -> JumpModel {
    JumpModel {
        gate_head: opt_pt(j.gate_head),
        is_jumping: j.is_jumping,
        gate_end_position: match j.gate_end_position {
            Some(q) => Some(pair_int(q)),
            None => None,
        },
    }
}

impl Jump {
    pub fn new(point: Point) -> (j: Jump)
        ensures
            j.gate_head == Some(point),
            j.is_jumping,
            j.gate_end_position == Some((point.x, point.y)),
    {
        Jump {
            gate_head: Some(point),
            is_jumping: true,
            gate_end_position: Some((point.x, point.y)),
        }
    }
}

/// Gates one simulation tick per frame of accumulated wall-clock time and
/// carries the configured quantities the kinematics derive from.
#[derive(Clone, Copy)]
pub struct FrameHandler {
    pub config: ComputedConfig,
    /// Accumulated time, in nanoseconds, since the last simulation tick.
    pub current_delta: u64,
}

impl FrameHandler {
    /// Sub-units per cell: `fps * MOVE_DELAY_DEN`.
    pub open spec fn spec_scale(self) -> int {
        self.config.spec_scale()
    }

    /// Move distance per tick in sub-units: `block_size * move_delay_num`.
    /// As a fraction of one cell this is exactly
    /// `block_size / fps * (move_delay_num / MOVE_DELAY_DEN)`.
    pub open spec fn spec_step(self) -> int {
        self.config.spec_step()
    }

    /// Accumulated time at which a tick fires: one frame.
    pub open spec fn spec_frame_time(self) -> int {
        NANOS_PER_SEC as int / self.config.fps as int
    }

    pub open spec fn wf(self) -> bool {
        self.config.wf()
    }

    pub fn new(config: ComputedConfig) -> (h: FrameHandler)
        ensures
            h.config == config,
            h.current_delta == 0,
    {
        FrameHandler { config, current_delta: 0 }
    }

    /// The per-tick move distance in sub-units.
    pub fn get_move_distance(&self) -> (d: u64)
        requires
            self.wf(),
        ensures
            d == self.spec_step(),
            1 <= d <= STEP_LIMIT,
    {
        proof {
            assert(1 <= self.config.block_size * self.config.move_delay_num <= 4096 * 4096)
                by (nonlinear_arith)
                requires
                    1 <= self.config.block_size <= 4096,
                    1 <= self.config.move_delay_num <= 4096,
            ;
        }
        self.config.block_size * self.config.move_delay_num
    }

    /// Sub-units per cell.
    pub fn scale(&self) -> (s: u64)
        requires
            self.wf(),
        ensures
            s == self.spec_scale(),
            1 <= s <= SCALE_LIMIT,
    {
        self.config.fps * MOVE_DELAY_DEN
    }

    /// Accumulated time at which a tick fires.
    pub fn frame_time(&self) -> (t: u64)
        requires
            self.wf(),
        ensures
            t == self.spec_frame_time(),
    {
        NANOS_PER_SEC / self.config.fps
    }
}

/// Ghost image of the kinematic state of a [`Snake`]: everything one tick
/// reads or writes, with coordinates as unbounded integers.
pub ghost struct SnakeModel {
    /// Body positions in sub-units, head first.
    pub body: Seq<(int, int)>,
    pub direction: Direction,
    pub request_direction: Direction,
    /// The turn anchor: the head position at the last tick on which the
    /// requested direction was not the reverse of the committed one.
    pub request_position: Option<(int, int)>,
    pub just_eat: bool,
    pub next_head: Option<(int, int)>,
    /// Cells of pending growth, counted in sub-steps.
    pub blocks_to_add: int,
    /// Whether the head has entered a new whole cell since the anchor.
    pub middle_block_passed: bool,
    pub jump: Option<JumpModel>,
    /// Move distance per tick in sub-units.
    pub step: int,
    /// Sub-units per cell.
    pub scale: int,
    pub wall: Wall,
}

impl SnakeModel {
    pub open spec fn head(self) -> (int, int)
        recommends
            self.body.len() >= 1,
    {
        self.body[0]
    }

    /// Sub-steps one cell of growth takes: `ceil(1 / move_distance)` with the
    /// move distance as a fraction of a cell.
    pub open spec fn growth_per_cell(self) -> int {
        spec_ceil_div(self.scale, self.step)
    }

    /// Body indices up to this one are skipped by the self-collision test:
    /// `ceil((1 / move_distance) / 2)`.
    pub open spec fn overlap_window(self) -> int {
        spec_ceil_div(self.scale, 2 * self.step)
    }
}

/// Whether a teleport destination is still waiting to be applied.
pub open spec fn jump_pending(s: SnakeModel) -> bool {
    s.jump matches Some(j) && j.gate_head is Some
}

/// The turn machinery runs only while the request is not an instant reversal.
pub open spec fn turn_considered(s: SnakeModel) -> bool {
    s.direction.spec_opposite() != s.request_direction
}

/// Whether two positions round to different whole cells.
pub open spec fn cells_differ(p: (int, int), q: (int, int), scale: int) -> bool {
    spec_round_cell(p.0, scale) != spec_round_cell(q.0, scale) || spec_round_cell(p.1, scale)
        != spec_round_cell(q.1, scale)
}

/// Whether the head sits at a cell boundary in the direction of travel: one
/// more step would cross into the next whole cell, or (moving toward zero)
/// the head is within one step of coordinate zero.
pub open spec fn spec_at_ceil_edge(head: (int, int), dir: Direction, step: int, scale: int) -> bool
    recommends
        scale >= 1,
{
    match dir {
        Direction::Up => spec_trunc_cell(head.1 - step, scale) != spec_trunc_cell(head.1, scale)
            || (head.1 > 0 && head.1 <= step),
        Direction::Down => spec_trunc_cell(head.1 + step, scale) != spec_trunc_cell(head.1, scale),
        Direction::Left => spec_trunc_cell(head.0 - step, scale) != spec_trunc_cell(head.0, scale)
            || (head.0 > 0 && head.0 <= step),
        Direction::Right => spec_trunc_cell(head.0 + step, scale) != spec_trunc_cell(
            head.0,
            scale,
        ),
    }
}

/// The middle-block flag after this tick's check: it latches once the head
/// has left the anchor's whole cell.
pub open spec fn middle_after(s: SnakeModel) -> bool
    recommends
        s.body.len() >= 1,
{
    match s.request_position {
        Some(a) => if turn_considered(s) {
            s.middle_block_passed || cells_differ(s.head(), a, s.scale)
        } else {
            s.middle_block_passed
        },
        None => s.middle_block_passed,
    }
}

/// Whether this tick commits the buffered turn: the request is no reversal,
/// an anchor is armed, a whole cell has been traversed since the anchor, and
/// the head sits at a cell boundary in the direction of travel.
pub open spec fn turn_commits(s: SnakeModel) -> bool
    recommends
        s.body.len() >= 1,
{
    &&& turn_considered(s)
    &&& s.request_position is Some
    &&& spec_at_ceil_edge(s.head(), s.direction, s.step, s.scale)
    &&& middle_after(s)
}

/// The head position a committed turn snaps to: the head's whole cell, in
/// sub-units.
pub open spec fn rounded_head(s: SnakeModel) -> (int, int)
    recommends
        s.body.len() >= 1,
{
    (spec_round_cell(s.head().0, s.scale) * s.scale, spec_round_cell(s.head().1, s.scale) * s.scale)
}

/// One simulation tick of the kinematic state.
///
/// A pending teleport resolves first and pre-empts everything else. Otherwise
/// the tick commits a buffered turn or advances straight by the precomputed
/// next head, re-arms the turn anchor, and settles growth: an eaten food adds
/// one cell's worth of sub-steps, and while growth is pending the tail is
/// kept; otherwise it pops.
pub open spec fn spec_tick(s: SnakeModel) -> SnakeModel
    recommends
        s.body.len() >= 1,
        jump_pending(s) || s.next_head is Some,
{
    match s.jump {
        Some(j) => match j.gate_head {
            Some(p) => SnakeModel {
                body: seq![p] + s.body,
                jump: Some(
                    JumpModel {
                        gate_head: None,
                        is_jumping: true,
                        gate_end_position: j.gate_end_position,
                    },
                ),
                ..s
            },
            None => spec_tick_move(s),
        },
        None => spec_tick_move(s),
    }
}

/// The non-teleport part of one tick: turn, advance, growth.
pub open spec fn spec_tick_move(s: SnakeModel) -> SnakeModel
    recommends
        s.body.len() >= 1,
        s.next_head is Some,
{
    {
        let commits = turn_commits(s);
        let dir1 = if commits {
            s.request_direction
        } else {
            s.direction
        };
        let middle1 = if commits {
            false
        } else {
            middle_after(s)
        };
        let body1 = if commits {
            seq![rounded_head(s)] + s.body
        } else {
            s.body
        };
        let anchor1 = if commits {
            Option::<(int, int)>::None
        } else {
            s.request_position
        };
        let anchor2 = if dir1.spec_opposite() != s.request_direction {
            Some(body1[0])
        } else {
            anchor1
        };
        let body2 = if commits {
            body1
        } else {
            seq![s.next_head.unwrap()] + body1
        };
        let grown = if s.just_eat {
            s.blocks_to_add + s.growth_per_cell()
        } else {
            s.blocks_to_add
        };
        let settled = if grown > 0 {
            grown - 1
        } else {
            grown
        };
        let body3 = if grown > 0 {
            body2
        } else {
            body2.drop_last()
        };
        SnakeModel {
            body: body3,
            direction: dir1,
            request_position: anchor2,
            just_eat: false,
            blocks_to_add: settled,
            middle_block_passed: middle1,
            ..s
        }
    }
}

/// Straight advance by one step, no wall applied.
pub open spec fn spec_straight(head: (int, int), dir: Direction, step: int) -> (int, int) {
    match dir {
        Direction::Up => (head.0, head.1 - step),
        Direction::Down => (head.0, head.1 + step),
        Direction::Left => (head.0 - step, head.1),
        Direction::Right => (head.0 + step, head.1),
    }
}

/// The candidate next head: straight advance, with Fluid walls wrapping a
/// step past either edge to the opposite edge on the same axis.
pub open spec fn spec_next_point(
    head: (int, int),
    dir: Direction,
    step: int,
    max_distance: int,
    wall: Wall,
) -> (int, int) {
    match wall {
        Wall::Solid => spec_straight(head, dir, step),
        Wall::Fluid => match dir {
            Direction::Up => if head.1 - step < 0 {
                (head.0, max_distance)
            } else {
                (head.0, head.1 - step)
            },
            Direction::Down => if head.1 + step > max_distance {
                (head.0, 0)
            } else {
                (head.0, head.1 + step)
            },
            Direction::Left => if head.0 - step < 0 {
                (max_distance, head.1)
            } else {
                (head.0 - step, head.1)
            },
            Direction::Right => if head.0 + step > max_distance {
                (0, head.1)
            } else {
                (head.0 + step, head.1)
            },
        },
    }
}

/// The far edge of the board in sub-units: the last whole cell of the board,
/// `board_size / block_size - 1` cells.
pub open spec fn spec_max_distance(board_size: int, block_size: int, scale: int) -> int
    recommends
        block_size >= 1,
{
    (board_size / block_size - 1) * scale
}

/// Whether some body point beyond the skip window sits exactly at `q`.
pub open spec fn spec_overlap(body: Seq<(int, int)>, window: int, q: (int, int)) -> bool {
    exists|i: int| window < i < body.len() && body[i] == q
}

pub open spec fn spec_out_of_range(head: (int, int), max_distance: int) -> bool {
    head.0 < 0 || head.0 > max_distance || head.1 < 0 || head.1 > max_distance
}

/// The death test. Solid walls: self-overlap or any axis out of range.
/// Fluid walls: self-overlap, unless the head sits exactly at the far edge
/// (the tick that wraps would otherwise read as a false death).
pub open spec fn spec_is_dead(s: SnakeModel, max_distance: int) -> bool
    recommends
        s.body.len() >= 1,
{
    match s.wall {
        Wall::Fluid => spec_overlap(s.body, s.overlap_window(), s.head()) && s.head().0
            != max_distance && s.head().1 != max_distance,
        Wall::Solid => spec_overlap(s.body, s.overlap_window(), s.head()) || spec_out_of_range(
            s.head(),
            max_distance,
        ),
    }
}

/// The initial body: points one step apart trailing from the head against
/// the starting direction.
pub open spec fn spec_initial_body(x: int, y: int, step: int, len: int) -> Seq<(int, int)> {
    Seq::new(len as nat, |i: int| (x - i * step, y))
}

/// How many points the initial body has: the number of steps that cover two
/// cells, rounded to the nearest whole count.
pub open spec fn spec_initial_len(scale: int, step: int) -> int {
    spec_round_cell(2 * scale, step)
}

/// The snake state machine.
pub struct Snake {
    /// Body positions in sub-units, head first.
    pub body: Vec<Point>,
    pub direction: Direction,
    pub request_direction: Direction,
    /// The turn anchor.
    pub request_position: Option<Point>,
    pub just_eat: bool,
    /// The candidate next head, precomputed each tick by the caller.
    pub next_head: Option<Point>,
    pub frame_handler: FrameHandler,
    /// Pending growth, in sub-steps.
    pub blocks_to_add: u32,
    pub middle_block_passed: bool,
    pub game_mode: GameMode,
    pub jump: Option<Jump>,
}

impl Snake {
    /// The kinematic state this snake is in.
    pub open spec fn model(self) -> SnakeModel {
        SnakeModel {
            body: pts(self.body@),
            direction: self.direction,
            request_direction: self.request_direction,
            request_position: opt_pt(self.request_position),
            just_eat: self.just_eat,
            next_head: opt_pt(self.next_head),
            blocks_to_add: self.blocks_to_add as int,
            middle_block_passed: self.middle_block_passed,
            jump: match self.jump {
                Some(j) => Some(jump_model(j)),
                None => None,
            },
            step: self.frame_handler.spec_step(),
            scale: self.frame_handler.spec_scale(),
            wall: self.game_mode.wall,
        }
    }

    /// Positions the kernel's arithmetic may start from.
    pub open spec fn point_op_ok(p: (int, int)) -> bool {
        coord_op_ok(p.0) && coord_op_ok(p.1)
    }

    /// Positions that may still be rounded to a cell: one step wider than
    /// [`Snake::point_op_ok`].
    pub open spec fn point_round_ok(p: (int, int)) -> bool {
        &&& -COORD_OP_LIMIT <= p.0 <= COORD_OP_LIMIT
        &&& -COORD_OP_LIMIT <= p.1 <= COORD_OP_LIMIT
    }

    /// Well-formed snake: admissible configuration and a nonempty body.
    pub open spec fn wf(self) -> bool {
        &&& self.frame_handler.wf()
        &&& self.body.len() >= 1
    }

    /// A fresh snake: a short body trailing leftward from `(x, y)` (in
    /// sub-units), heading right, with nothing buffered or pending.
    pub fn new(x: i64, y: i64, frame_handler: FrameHandler, game_mode: GameMode) -> (s: Snake)
        requires
            frame_handler.wf(),
            spec_initial_len(frame_handler.spec_scale(), frame_handler.spec_step()) >= 1,
            coord_op_ok(x as int),
            coord_op_ok(y as int),
            coord_op_ok(x - 2 * frame_handler.spec_scale() - frame_handler.spec_step()),
        ensures
            s.model().body == spec_initial_body(
                x as int,
                y as int,
                frame_handler.spec_step(),
                spec_initial_len(frame_handler.spec_scale(), frame_handler.spec_step()),
            ),
            s.direction == Direction::Right,
            s.request_direction == Direction::Right,
            s.request_position is None,
            !s.just_eat,
            s.next_head is None,
            s.frame_handler == frame_handler,
            s.blocks_to_add == 0,
            !s.middle_block_passed,
            s.game_mode == game_mode,
            s.jump is None,
            s.wf(),
    {
        let step = frame_handler.get_move_distance();
        let scale = frame_handler.scale();
        let len_i: i64 = round_cell((2 * scale) as i64, step as i64);
        let ghost n = spec_initial_len(frame_handler.spec_scale(), frame_handler.spec_step());
        proof {
            lemma_round_cell_bound(2 * scale as int, step as int, CELL_LIMIT as int);
            assert(n * step <= 2 * scale as int + step) by (nonlinear_arith)
                requires
                    step >= 1,
                    n == (2 * (2 * scale as int) + step) / (2 * step),
            ;
        }
        let len: usize = len_i as usize;
        let mut body: Vec<Point> = Vec::new();
        let mut i: usize = 0;
        while i < len
            invariant
                body@.len() == i,
                i <= len,
                len == n,
                1 <= n <= CELL_LIMIT,
                n * step <= 2 * scale + step,
                step == frame_handler.spec_step(),
                scale == frame_handler.spec_scale(),
                1 <= step <= STEP_LIMIT,
                1 <= scale <= SCALE_LIMIT,
                coord_op_ok(x as int),
                coord_op_ok(y as int),
                coord_op_ok(x - 2 * scale - step),
                forall|k: int| 0 <= k < i ==> pt(body@[k]) == (x - k * step, y as int),
            decreases len - i,
        {
            proof {
                assert(0 <= i * step <= n * step) by (nonlinear_arith)
                    requires
                        step >= 1,
                        0 <= i < n,
                ;
            }
            let p = Point { x: x - (i as i64) * (step as i64), y };
            body.push(p);
            i = i + 1;
        }
        let s = Snake {
            body,
            direction: Direction::Right,
            request_direction: Direction::Right,
            request_position: None,
            just_eat: false,
            next_head: None,
            frame_handler,
            blocks_to_add: 0,
            middle_block_passed: false,
            game_mode,
            jump: None,
        };
        proof {
            assert(s.model().body =~= spec_initial_body(x as int, y as int, step as int, n));
        }
        s
    }

    /// The head position, in sub-units.
    pub fn head_position(&self) -> (h: (i64, i64))
        requires
            self.body@.len() >= 1,
        ensures
            pair_int(h) == self.model().head(),
    {
        let head = &self.body[0];
        (head.x, head.y)
    }

    /// Whether the head sits at a cell boundary in the direction of travel.
    fn at_ceil_edge(&self, head_x: i64, head_y: i64) -> (r: bool)
        requires
            self.frame_handler.wf(),
            coord_op_ok(head_x as int),
            coord_op_ok(head_y as int),
        ensures
            r == spec_at_ceil_edge(
                (head_x as int, head_y as int),
                self.direction,
                self.frame_handler.spec_step(),
                self.frame_handler.spec_scale(),
            ),
    {
        let step = self.frame_handler.get_move_distance() as i64;
        let scale = self.frame_handler.scale() as i64;
        match self.direction {
            Direction::Up => trunc_cell(head_y - step, scale) != trunc_cell(head_y, scale) || (
            head_y > 0 && head_y <= step),
            Direction::Down => trunc_cell(head_y + step, scale) != trunc_cell(head_y, scale),
            Direction::Left => trunc_cell(head_x - step, scale) != trunc_cell(head_x, scale) || (
            head_x > 0 && head_x <= step),
            Direction::Right => trunc_cell(head_x + step, scale) != trunc_cell(head_x, scale),
        }
    }

    /// The candidate next head: one step ahead of the committed direction,
    /// with the configured wall policy applied.
    pub fn get_next_point(&self, board_size: u64, block_size: u64) -> (p: Point)
        requires
            self.wf(),
            Snake::point_op_ok(self.model().head()),
            block_size >= 1,
            1 <= board_size / block_size <= CELL_LIMIT,
        ensures
            pt(p) == spec_next_point(
                self.model().head(),
                self.direction,
                self.model().step,
                spec_max_distance(
                    board_size as int,
                    block_size as int,
                    self.model().scale,
                ),
                self.model().wall,
            ),
            Snake::point_round_ok(pt(p)),
    {
        let (head_x, head_y) = self.head_position();
        let move_distance = self.frame_handler.get_move_distance() as i64;
        let scale = self.frame_handler.scale() as i64;
        let cells: u64 = board_size / block_size;
        proof {
            assert((cells - 1) * scale <= CELL_LIMIT * SCALE_LIMIT) by (nonlinear_arith)
                requires
                    1 <= cells <= CELL_LIMIT,
                    1 <= scale <= SCALE_LIMIT,
            ;
        }
        let max_distance: i64 = ((cells - 1) as i64) * scale;
        match self.game_mode.wall {
            Wall::Solid => match self.direction {
                Direction::Up => Point { x: head_x, y: head_y - move_distance },
                Direction::Down => Point { x: head_x, y: head_y + move_distance },
                Direction::Left => Point { x: head_x - move_distance, y: head_y },
                Direction::Right => Point { x: head_x + move_distance, y: head_y },
            },
            Wall::Fluid => match self.direction {
                Direction::Up => {
                    let next_y = if head_y - move_distance < 0 {
                        max_distance
                    } else {
                        head_y - move_distance
                    };
                    Point { x: head_x, y: next_y }
                },
                Direction::Down => {
                    let next_y = if head_y + move_distance > max_distance {
                        0
                    } else {
                        head_y + move_distance
                    };
                    Point { x: head_x, y: next_y }
                },
                Direction::Left => {
                    let next_x = if head_x - move_distance < 0 {
                        max_distance
                    } else {
                        head_x - move_distance
                    };
                    Point { x: next_x, y: head_y }
                },
                Direction::Right => {
                    let next_x = if head_x + move_distance > max_distance {
                        0
                    } else {
                        head_x + move_distance
                    };
                    Point { x: next_x, y: head_y }
                },
            },
        }
    }

    /// Buffer a requested direction; an unrecognized input (`None`) keeps
    /// the prior request.
    pub fn request_direction(&mut self, dir: Option<Direction>)
        ensures
            *final (self) == (Snake {
                request_direction: match dir {
                    Some(d) => d,
                    None => old(self).request_direction,
                },
                ..*old(self)
            }),
    {
        self.request_direction = match dir {
            Some(d) => d,
            None => self.request_direction,
        };
    }

    /// Whether `(x, y)` coincides exactly with a body point beyond the skip
    /// window of sub-cell-spaced segments near the head.
    pub fn overlap_tail(&self, x: i64, y: i64) -> (r: bool)
        requires
            self.frame_handler.wf(),
        ensures
            r == spec_overlap(self.model().body, self.model().overlap_window(), (x as int, y as int)),
    {
        let step = self.frame_handler.get_move_distance();
        let scale = self.frame_handler.scale();
        let window: u64 = ceil_div(scale, 2 * step);
        let mut index: usize = 0;
        while index < self.body.len()
            invariant
                index <= self.body@.len(),
                window == self.model().overlap_window(),
                forall|i: int|
                    window < i < index ==> self.model().body[i] != (x as int, y as int),
            decreases self.body@.len() - index,
        {
            if (index as u64) > window {
                let p = &self.body[index];
                if p.x == x && p.y == y {
                    proof {
                        assert(spec_overlap(
                            self.model().body,
                            self.model().overlap_window(),
                            (x as int, y as int),
                        )) by {
                            assert(self.model().body[index as int] == (x as int, y as int));
                        }
                    }
                    return true;
                }
            }
            index = index + 1;
        }
        false
    }

    /// The death test; see [`spec_is_dead`].
    pub fn is_dead(&self, board_size: u64, block_size: u64) -> (r: bool)
        requires
            self.wf(),
            block_size >= 1,
            1 <= board_size / block_size <= CELL_LIMIT,
        ensures
            r == spec_is_dead(
                self.model(),
                spec_max_distance(board_size as int, block_size as int, self.model().scale),
            ),
    {
        let (x, y) = self.head_position();
        let scale = self.frame_handler.scale() as i64;
        let cells: u64 = board_size / block_size;
        proof {
            assert((cells - 1) * scale <= CELL_LIMIT * SCALE_LIMIT) by (nonlinear_arith)
                requires
                    1 <= cells <= CELL_LIMIT,
                    1 <= scale <= SCALE_LIMIT,
            ;
        }
        let max_distance: i64 = ((cells - 1) as i64) * scale;
        match self.game_mode.wall {
            Wall::Fluid => self.overlap_tail(x, y) && (x != max_distance && y != max_distance),
            Wall::Solid => self.overlap_tail(x, y) || x < 0 || x > max_distance || y < 0 || y
                > max_distance,
        }
    }

    /// Whether the precomputed next head lands on the active food's cell.
    pub fn next_move_eat(&self, food: &Food) -> (r: bool)
        requires
            self.frame_handler.wf(),
            self.next_head is Some,
            Snake::point_round_ok(opt_pt(self.next_head).unwrap()),
        ensures
            r == spec_next_move_eat(self.model(), *food),
    {
        let p = self.next_head.unwrap();
        let scale = self.frame_handler.scale() as i64;
        food.exists && round_cell(p.x, scale) == food.x && round_cell(p.y, scale) == food.y
    }

    /// Accumulate elapsed time and, once one frame's worth has gathered,
    /// run exactly one simulation tick: the kinematic state then steps by
    /// [`spec_tick`]. Below the threshold nothing but the accumulator moves.
    #[verifier::rlimit(100)]
    pub fn update(&mut self, delta_time: u64)
        requires
            old(self).wf(),
            old(self).frame_handler.current_delta + delta_time <= u64::MAX,
            Snake::point_op_ok(old(self).model().head()),
            (old(self).model().request_position matches Some(a) ==> Snake::point_op_ok(a)),
            jump_pending(old(self).model()) || old(self).next_head is Some,
            old(self).blocks_to_add + old(self).model().growth_per_cell() <= u32::MAX,
        ensures
            final (self).wf(),
            final (self).frame_handler.config == old(self).frame_handler.config,
            final (self).game_mode == old(self).game_mode,
            old(self).frame_handler.current_delta + delta_time < old(
                self,
            ).frame_handler.spec_frame_time() ==> final (self).frame_handler.current_delta == old(
                self,
            ).frame_handler.current_delta + delta_time && final (self).model() == old(self).model(),
            old(self).frame_handler.current_delta + delta_time >= old(
                self,
            ).frame_handler.spec_frame_time() ==> final (self).frame_handler.current_delta == 0
                && final (self).model() == spec_tick(old(self).model()),
    {
        let ghost s0 = self.model();
        self.frame_handler.current_delta = self.frame_handler.current_delta + delta_time;
        if self.frame_handler.current_delta < self.frame_handler.frame_time() {
            return ;
        }
        self.frame_handler.current_delta = 0;

        if let Some(j) = self.jump {
            if let Some(p) = j.gate_head {
                self.body.insert(0, p);
                self.jump = Some(
                    Jump {
                        gate_head: None,
                        is_jumping: true,
                        gate_end_position: j.gate_end_position,
                    },
                );
                proof {
                    assert(self.model().body =~= spec_tick(s0).body);
                    assert(self.model() == spec_tick(s0));
                }
                return ;
            }
        }
        let (head_x, head_y) = self.head_position();
        let scale = self.frame_handler.scale() as i64;
        let mut need_new_head = true;

        if self.direction.opposite() != self.request_direction {
            if let Some(past) = self.request_position {
                if round_cell(head_x, scale) != round_cell(past.x, scale) || round_cell(
                    head_y,
                    scale,
                ) != round_cell(past.y, scale) {
                    self.middle_block_passed = true;
                }
                if self.at_ceil_edge(head_x, head_y) && self.middle_block_passed {
                    self.middle_block_passed = false;
                    need_new_head = false;
                    self.request_position = None;
                    proof {
                        lemma_round_cell_near(head_x as int, scale as int);
                        lemma_round_cell_near(head_y as int, scale as int);
                    }
                    let rx = round_cell(head_x, scale) * scale;
                    let ry = round_cell(head_y, scale) * scale;
                    self.body.insert(0, Point { x: rx, y: ry });
                    self.direction = self.request_direction;
                }
            }
        }
        if self.direction.opposite() != self.request_direction {
            let h = self.head_position();
            self.request_position = Some(Point { x: h.0, y: h.1 });
        }
        if need_new_head {
            let nh = self.next_head.unwrap();
            self.body.insert(0, nh);
        }
        if self.just_eat {
            let step = self.frame_handler.get_move_distance();
            let grow = ceil_div(self.frame_handler.scale(), step);
            proof {
                lemma_ceil_div_le(self.frame_handler.spec_scale(), self.frame_handler.spec_step());
            }
            self.blocks_to_add = self.blocks_to_add + (grow as u32);
            self.just_eat = false;
        }
        if self.blocks_to_add > 0 {
            self.blocks_to_add = self.blocks_to_add - 1;
            proof {
                assert(self.model().body =~= spec_tick(s0).body);
                assert(self.model() == spec_tick(s0));
            }
            return ;
        }
        let _ = self.body.pop();
        proof {
            assert(self.model().body =~= spec_tick(s0).body);
            assert(self.model() == spec_tick(s0));
        }
    }

    /// Whether the precomputed next head enters an unused gate. The first
    /// such gate has its `used` flag latched; a used gate never re-triggers.
    #[verifier::loop_isolation(false)]
    pub fn next_move_take_gate(&self, portal: &mut Portal) -> (r: bool)
        requires
            self.frame_handler.wf(),
            self.next_head is Some,
            Snake::point_round_ok(opt_pt(self.next_head).unwrap()),
        ensures
            ({
                let cell = (
                    spec_round_cell(opt_pt(self.next_head).unwrap().0, self.model().scale),
                    spec_round_cell(opt_pt(self.next_head).unwrap().1, self.model().scale),
                );
                &&& r == exists|i: int|
                    0 <= i < old(portal).gates@.len() && spec_gate_hit(
                        #[trigger] old(portal).gates@[i],
                        cell,
                    )
                &&& r ==> exists|i: int|
                    #![auto]
                    {
                        &&& 0 <= i < old(portal).gates@.len()
                        &&& spec_gate_hit(old(portal).gates@[i], cell)
                        &&& forall|k: int|
                            0 <= k < i ==> !spec_gate_hit(#[trigger] old(portal).gates@[k], cell)
                        &&& final (portal).gates@ == old(portal).gates@.update(
                            i,
                            Gate {
                                x: old(portal).gates@[i].x,
                                y: old(portal).gates@[i].y,
                                used: true,
                            },
                        )
                    }
                &&& !r ==> final (portal).gates@ == old(portal).gates@
                &&& r ==> crate::portal::spec_any_used(final (portal).gates@)
                &&& final (portal).next == old(portal).next
            }),
    {
        let p = self.next_head.unwrap();
        let scale = self.frame_handler.scale() as i64;
        let cx = round_cell(p.x, scale);
        let cy = round_cell(p.y, scale);
        let mut i: usize = 0;
        while i < portal.gates.len()
            invariant
                i <= portal.gates@.len(),
                portal.gates@ == old(portal).gates@,
                portal.next == old(portal).next,
                forall|k: int|
                    0 <= k < i ==> !spec_gate_hit(
                        #[trigger] old(portal).gates@[k],
                        (cx as int, cy as int),
                    ),
            decreases portal.gates@.len() - i,
        {
            let g = portal.gates[i];
            if g.x == cx && g.y == cy && !g.used {
                portal.gates[i] = Gate { x: g.x, y: g.y, used: true };
                proof {
                    assert((portal.gates@[i as int]).used);
                }
                return true;
            }
            i = i + 1;
        }
        false
    }

    /// Arm the in-flight teleport at the position of the last unused gate.
    #[verifier::loop_isolation(false)]
    pub fn teleport(&mut self, portal: &Portal)
        requires
            old(self).frame_handler.wf(),
            portal.cells_ok(),
            spec_any_unused(portal.gates@),
        ensures
            *final (self) == (Snake { jump: final (self).jump, ..*old(self) }),
            ({
                let scale = old(self).model().scale;
                exists|i: int|
                    #![auto]
                    {
                        &&& 0 <= i < portal.gates@.len()
                        &&& !portal.gates@[i].used
                        &&& forall|k: int| i < k < portal.gates@.len() ==> portal.gates@[k].used
                        &&& final (self).jump matches Some(j) && j == (Jump {
                            gate_head: Some(
                                Point {
                                    x: (portal.gates@[i].x * scale) as i64,
                                    y: (portal.gates@[i].y * scale) as i64,
                                },
                            ),
                            is_jumping: true,
                            gate_end_position: Some(
                                (
                                    (portal.gates@[i].x * scale) as i64,
                                    (portal.gates@[i].y * scale) as i64,
                                ),
                            ),
                        })
                    }
            }),
    {
        let scale = self.frame_handler.scale() as i64;
        let mut found: usize = 0;
        let mut have: bool = false;
        let mut i: usize = 0;
        while i < portal.gates.len()
            invariant
                i <= portal.gates@.len(),
                have ==> 0 <= found < i && !portal.gates@[found as int].used,
                have ==> forall|k: int| found < k < i ==> (#[trigger] portal.gates@[k]).used,
                !have ==> forall|k: int| 0 <= k < i ==> (#[trigger] portal.gates@[k]).used,
            decreases portal.gates@.len() - i,
        {
            if !portal.gates[i].used {
                found = i;
                have = true;
            }
            i = i + 1;
        }
        proof {
            assert(have) by {
                if !have {
                    let w = choose|k: int|
                        0 <= k < portal.gates@.len() && !(#[trigger] portal.gates@[k]).used;
                    assert(portal.gates@[w].used);
                }
            }
        }
        let g = portal.gates[found];
        proof {
            assert(-CELL_LIMIT * SCALE_LIMIT <= g.x * scale <= CELL_LIMIT * SCALE_LIMIT)
                by (nonlinear_arith)
                requires
                    1 <= scale <= SCALE_LIMIT,
                    -CELL_LIMIT <= g.x <= CELL_LIMIT,
            ;
            assert(-CELL_LIMIT * SCALE_LIMIT <= g.y * scale <= CELL_LIMIT * SCALE_LIMIT)
                by (nonlinear_arith)
                requires
                    1 <= scale <= SCALE_LIMIT,
                    -CELL_LIMIT <= g.y <= CELL_LIMIT,
            ;
        }
        let x = g.x * scale;
        let y = g.y * scale;
        self.jump = Some(Jump::new(Point { x, y }));
        proof {
            let i = found as int;
            assert(0 <= i < portal.gates@.len() && !portal.gates@[i].used && (forall|k: int|
                i < k < portal.gates@.len() ==> (#[trigger] portal.gates@[k]).used));
        }
    }

    /// Whether the tail has not yet reached the teleport destination; the
    /// in-flight record stays until it has.
    pub fn in_gate(&mut self) -> (r: bool)
        requires
            old(self).body@.len() >= 1,
            old(self).jump matches Some(j) && j.gate_end_position is Some,
        ensures
            *final (self) == *old(self),
            r == !({
                let j = old(self).jump.unwrap();
                let tail = old(self).body@[old(self).body@.len() - 1];
                j.is_jumping && (tail.x, tail.y) == j.gate_end_position.unwrap()
            }),
    {
        let tail = &self.body[self.body.len() - 1];
        let j = self.jump.unwrap();
        let (gate_x, gate_y) = j.gate_end_position.unwrap();
        if j.is_jumping && tail.x == gate_x && tail.y == gate_y {
            return false;
        }
        true
    }
}

/// The state after a run of ticks, each handed the respective candidate
/// next head before it fires.
pub open spec fn spec_run(s: SnakeModel, heads: Seq<(int, int)>) -> SnakeModel
    decreases heads.len(),
{
    if heads.len() == 0 {
        s
    } else {
        spec_run(spec_tick(SnakeModel { next_head: Some(heads.first()), ..s }), heads.drop_first())
    }
}

/// Where the `i`-th body point of a body laid out by straight-line travel
/// sits: `i` steps behind the head, against the direction of travel.
pub open spec fn spec_trail(head: (int, int), dir: Direction, step: int, i: int) -> (int, int) {
    match dir {
        Direction::Up => (head.0, head.1 + i * step),
        Direction::Down => (head.0, head.1 - i * step),
        Direction::Left => (head.0 + i * step, head.1),
        Direction::Right => (head.0 - i * step, head.1),
    }
}

/// Reversing a direction is total and involutive, and never yields the
/// direction itself.
pub proof fn lemma_opposite_involutive(d: Direction)
    ensures
        d.spec_opposite().spec_opposite() == d,
        d.spec_opposite() != d,
{
}

/// A tick on which no teleport is in flight and no turn commits moves the
/// head by exactly the move distance along the committed axis, and keeps the
/// body length unless growth is pending.
pub proof fn lemma_straight_tick(s: SnakeModel)
    requires
        s.body.len() >= 1,
        s.step >= 1,
        s.scale >= 1,
        s.blocks_to_add >= 0,
        !jump_pending(s),
        !turn_commits(s),
        s.next_head == Some(spec_straight(s.head(), s.direction, s.step)),
    ensures
        spec_tick(s).body.len() >= 1,
        spec_tick(s).head() == spec_straight(s.head(), s.direction, s.step),
        spec_tick(s).direction == s.direction,
        !s.just_eat && s.blocks_to_add == 0 ==> spec_tick(s).body.len() == s.body.len(),
        s.just_eat || s.blocks_to_add > 0 ==> spec_tick(s).body.len() == s.body.len() + 1,
{
    lemma_ceil_div_le(s.scale, s.step);
    let pushed = seq![s.next_head.unwrap()] + s.body;
    assert(pushed[0] == s.next_head.unwrap());
    if !s.just_eat && s.blocks_to_add == 0 {
        assert(spec_tick(s).body == pushed.drop_last());
        assert(pushed.drop_last()[0] == pushed[0]);
    }
}

/// Growth is consumed one sub-step per tick: starting from a tick that eats
/// with no growth pending, each of the next `growth_per_cell` ticks keeps
/// the tail, so the body gains exactly one point per tick; after exactly
/// `growth_per_cell` ticks the counter is back at zero and the tail resumes
/// popping.
pub proof fn lemma_eat_growth_run(s: SnakeModel, heads: Seq<(int, int)>)
    requires
        s.body.len() >= 1,
        s.step >= 1,
        s.scale >= 1,
        s.jump is None,
        s.just_eat,
        s.blocks_to_add == 0,
        1 <= heads.len() <= s.growth_per_cell(),
    ensures
        spec_run(s, heads).blocks_to_add == s.growth_per_cell() - heads.len(),
        spec_run(s, heads).body.len() == s.body.len() + heads.len(),
        !spec_run(s, heads).just_eat,
        spec_run(s, heads).jump is None,
{
    lemma_ceil_div_le(s.scale, s.step);
    let s0 = SnakeModel { next_head: Some(heads.first()), ..s };
    let s1 = spec_tick(s0);
    assert(s1.blocks_to_add == s.growth_per_cell() - 1);
    assert(s1.body.len() == s.body.len() + 1);
    lemma_growth_pending_run(s1, heads.drop_first());
}

/// While growth is pending and no further food is eaten, each tick keeps
/// the tail and decrements the counter by one.
pub proof fn lemma_growth_pending_run(s: SnakeModel, heads: Seq<(int, int)>)
    requires
        s.body.len() >= 1,
        s.jump is None,
        !s.just_eat,
        s.blocks_to_add >= heads.len(),
    ensures
        spec_run(s, heads).blocks_to_add == s.blocks_to_add - heads.len(),
        spec_run(s, heads).body.len() == s.body.len() + heads.len(),
        spec_run(s, heads).just_eat == s.just_eat || heads.len() == 0,
        spec_run(s, heads).jump is None,
    decreases heads.len(),
{
    if heads.len() > 0 {
        let s0 = SnakeModel { next_head: Some(heads.first()), ..s };
        let s1 = spec_tick(s0);
        assert(s1.blocks_to_add == s.blocks_to_add - 1);
        assert(s1.body.len() == s.body.len() + 1);
        lemma_growth_pending_run(s1, heads.drop_first());
    }
}

/// A buffered request equal to the reverse of the committed direction is
/// never committed: the direction is invariant under such a request over one
/// tick.
pub proof fn lemma_reversal_never_commits(s: SnakeModel)
    requires
        s.body.len() >= 1,
        s.request_direction == s.direction.spec_opposite(),
    ensures
        spec_tick(s).direction == s.direction,
        spec_tick(s).request_direction == s.request_direction,
        spec_tick(s).body.len() >= 1,
{
}

/// A buffered reversal request is never committed over any number of ticks.
pub proof fn lemma_reversal_never_commits_run(s: SnakeModel, heads: Seq<(int, int)>)
    requires
        s.body.len() >= 1,
        s.request_direction == s.direction.spec_opposite(),
    ensures
        spec_run(s, heads).direction == s.direction,
        spec_run(s, heads).request_direction == s.request_direction,
    decreases heads.len(),
{
    if heads.len() > 0 {
        let s0 = SnakeModel { next_head: Some(heads.first()), ..s };
        lemma_reversal_never_commits(s0);
        lemma_reversal_never_commits_run(spec_tick(s0), heads.drop_first());
    }
}

/// The self-collision test never fires against a body formed solely by
/// straight-line travel: with every point one step behind the previous one
/// along a single axis, no point beyond the skip window coincides with the
/// head, for any move distance in `(0, scale]`.
pub proof fn lemma_overlap_straight(s: SnakeModel)
    requires
        s.body.len() >= 1,
        1 <= s.step <= s.scale,
        forall|i: int|
            0 <= i < s.body.len() ==> s.body[i] == spec_trail(
                s.head(),
                s.direction,
                s.step,
                i,
            ),
    ensures
        !spec_overlap(s.body, s.overlap_window(), s.head()),
{
    assert(s.overlap_window() >= 0);
    assert forall|i: int| 0 < i < s.body.len() implies s.body[i] != s.head() by {
        assert(i * s.step >= 1) by (nonlinear_arith)
            requires
                i >= 1,
                s.step >= 1,
        ;
    }
}

/// At a boundary, a step in Fluid mode reappears at the opposite edge with
/// the orthogonal coordinate unchanged, while the same step in Solid mode
/// leaves the coordinate out of range.
pub proof fn lemma_wall_step(head: (int, int), dir: Direction, step: int, max_distance: int)
    requires
        step >= 1,
        max_distance >= 0,
    ensures
        dir == Direction::Right && head.0 + step > max_distance ==> spec_next_point(
            head,
            dir,
            step,
            max_distance,
            Wall::Fluid,
        ) == (0int, head.1) && spec_out_of_range(
            spec_next_point(head, dir, step, max_distance, Wall::Solid),
            max_distance,
        ),
        dir == Direction::Left && head.0 - step < 0 ==> spec_next_point(
            head,
            dir,
            step,
            max_distance,
            Wall::Fluid,
        ) == (max_distance, head.1) && spec_out_of_range(
            spec_next_point(head, dir, step, max_distance, Wall::Solid),
            max_distance,
        ),
        dir == Direction::Down && head.1 + step > max_distance ==> spec_next_point(
            head,
            dir,
            step,
            max_distance,
            Wall::Fluid,
        ) == (head.0, 0int) && spec_out_of_range(
            spec_next_point(head, dir, step, max_distance, Wall::Solid),
            max_distance,
        ),
        dir == Direction::Up && head.1 - step < 0 ==> spec_next_point(
            head,
            dir,
            step,
            max_distance,
            Wall::Fluid,
        ) == (head.0, max_distance) && spec_out_of_range(
            spec_next_point(head, dir, step, max_distance, Wall::Solid),
            max_distance,
        ),
{
}

/// In Solid mode a head out of range is dead, whatever the body looks like.
pub proof fn lemma_out_of_range_dead(s: SnakeModel, max_distance: int)
    requires
        s.body.len() >= 1,
        s.wall == Wall::Solid,
        spec_out_of_range(s.head(), max_distance),
    ensures
        spec_is_dead(s, max_distance),
{
}

/// Whether the snake's precomputed next head eats `food`: the food is
/// active and the next head rounds to its cell.
pub open spec fn spec_next_move_eat(s: SnakeModel, food: Food) -> bool
    recommends
        s.next_head is Some,
{
    &&& food.exists
    &&& s.next_head matches Some(nh)
    &&& spec_round_cell(nh.0, s.scale) == food.x
    &&& spec_round_cell(nh.1, s.scale) == food.y
}

} // verus!
