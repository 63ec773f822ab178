//! The board: the free-cell grid and the composition root of one session.
use vstd::prelude::*;
use vstd::seq_lib::group_filter_ensures;
use crate::config::GlobalConfig;
use crate::food::Food;
use crate::game_mode::GameMode;
use crate::portal::{Gate, Portal};
use crate::rng::random_below;
use crate::snake::{pair_int, pt, pts, spec_initial_len, FrameHandler, Point, Snake};
use crate::units::{CELL_LIMIT, SCALE_LIMIT};

verus! {

broadcast use group_filter_ensures;

/// The integer pairs a sequence of machine-integer cells stands for.
pub open spec fn cells(s: Seq<(i64, i64)>) -> Seq<(int, int)> {
    s.map_values(|c: (i64, i64)| pair_int(c))
}

/// The interior cells of a board with `n + 1` cells per side: both axes run
/// over `1 ..= n`, row-major with the column outermost.
pub open spec fn spec_grid_cells(n: int) -> Seq<(int, int)> {
    if n >= 1 {
        Seq::new((n * n) as nat, |i: int| (1 + i / n, 1 + i % n))
    } else {
        Seq::empty()
    }
}

/// Whether cell `c` is covered by a body point, the food, or a gate. A body
/// point covers a cell only when it sits exactly on it (body coordinates are
/// sub-units; the cell's corner is `cell * scale`).
pub open spec fn spec_cell_occupied(
    c: (int, int),
    body: Seq<(int, int)>,
    food: Food,
    gates: Option<Seq<Option<Gate>>>,
    scale: int,
) -> bool {
    ||| exists|i: int| 0 <= i < body.len() && body[i] == (c.0 * scale, c.1 * scale)
    ||| (food.x == c.0 && food.y == c.1)
    ||| {
        &&& gates matches Some(gs)
        &&& exists|i: int|
            0 <= i < gs.len() && ((#[trigger] gs[i]) matches Some(g) && g.x == c.0 && g.y == c.1)
    }
}

/// Whether `c` is free on the board: an interior cell that neither a body
/// point nor the food covers. New food and gates are drawn from such cells.
pub open spec fn spec_cell_free(board: Board, c: (int, int)) -> bool {
    board.grid.model().contains(c) && !spec_cell_occupied(
        c,
        pts(board.snake.body@),
        board.food,
        None,
        board.snake.model().scale,
    )
}

/// Whatever a filter keeps is a member of the source and satisfies the
/// predicate.
pub proof fn lemma_filter_member<A>(s: Seq<A>, pred: spec_fn(A) -> bool, x: A)
    requires
        s.filter(pred).contains(x),
    ensures
        s.contains(x),
        pred(x),
    decreases s.len(),
{
    reveal(Seq::filter);
    if s.len() > 0 {
        let f = s.filter(pred);
        let fd = s.drop_last().filter(pred);
        if pred(s.last()) && s.last() == x {
            assert(s[s.len() - 1] == x);
        } else {
            if pred(s.last()) {
                let i = choose|i: int| 0 <= i < f.len() && f[i] == x;
                assert(f == fd.push(s.last()));
                assert(i < f.len() - 1);
                assert(fd.contains(x)) by {
                    assert(fd[i] == x);
                }
            } else {
                assert(fd.contains(x));
            }
            lemma_filter_member(s.drop_last(), pred, x);
            let j = choose|j: int| 0 <= j < s.drop_last().len() && s.drop_last()[j] == x;
            assert(s[j] == x);
        }
    }
}

/// The enumeration of interior cells that food and gate placement draw from.
#[derive(Clone)]
pub struct Grid {
    /// Interior cells as whole-cell coordinates.
    pub list: Vec<(i64, i64)>,
}

impl Grid {
    /// The cells this grid offers.
    pub open spec fn model(self) -> Seq<(int, int)> {
        cells(self.list@)
    }

    /// Every cell within the magnitude the kernel's arithmetic admits.
    pub open spec fn cells_ok(self) -> bool {
        forall|i: int|
            0 <= i < self.list@.len() ==> -CELL_LIMIT <= #[trigger] self.list@[i].0 <= CELL_LIMIT
                && -CELL_LIMIT <= self.list@[i].1 <= CELL_LIMIT
    }

    /// Enumerate the interior cells: everything except the one-cell border,
    /// `{1 .. board_size / block_size - 1}` on both axes.
    pub fn new(board_size: u64, block_size: u64) -> (g: Grid)
        requires
            block_size >= 1,
            board_size / block_size <= CELL_LIMIT,
        ensures
            g.model() == spec_grid_cells(board_size as int / block_size as int - 1),
            g.cells_ok(),
    {
        let n_raw: u64 = board_size / block_size;
        let ghost n: int = n_raw - 1;
        let mut list: Vec<(i64, i64)> = Vec::new();
        if n_raw < 2 {
            proof {
                assert(cells(list@) =~= spec_grid_cells(n));
            }
            return Grid { list };
        }
        let side: u64 = n_raw - 1;
        let mut x: u64 = 1;
        while x <= side
            invariant
                1 <= x <= side + 1,
                side == n,
                1 <= n <= CELL_LIMIT,
                list@.len() == (x - 1) * n,
                forall|i: int|
                    0 <= i < list@.len() ==> pair_int(#[trigger] list@[i]) == (
                        1 + i / n,
                        1 + i % n,
                    ),
                forall|i: int|
                    0 <= i < list@.len() ==> 1 <= #[trigger] list@[i].0 <= n && 1 <= list@[i].1
                        <= n,
            decreases side + 1 - x,
        {
            let mut y: u64 = 1;
            proof {
                assert((x - 1) * n + n <= n * n) by (nonlinear_arith)
                    requires
                        1 <= x <= n,
                        1 <= n,
                ;
            }
            while y <= side
                invariant
                    1 <= x <= side,
                    1 <= y <= side + 1,
                    side == n,
                    1 <= n <= CELL_LIMIT,
                    (x - 1) * n + n <= n * n,
                    list@.len() == (x - 1) * n + (y - 1),
                    forall|i: int|
                        0 <= i < list@.len() ==> pair_int(#[trigger] list@[i]) == (
                            1 + i / n,
                            1 + i % n,
                        ),
                    forall|i: int|
                        0 <= i < list@.len() ==> 1 <= #[trigger] list@[i].0 <= n && 1
                            <= list@[i].1 <= n,
                decreases side + 1 - y,
            {
                proof {
                    vstd::arithmetic::div_mod::lemma_fundamental_div_mod_converse(
                        (x - 1) * n + (y - 1),
                        n,
                        x - 1,
                        y - 1,
                    );
                }
                list.push((x as i64, y as i64));
                y = y + 1;
            }
            proof {
                assert((x - 1) * n + n == ((x + 1) - 1) * n) by (nonlinear_arith);
            }
            x = x + 1;
        }
        proof {
            assert(list@.len() == n * n) by (nonlinear_arith)
                requires
                    list@.len() == ((n + 1) - 1) * n,
            ;
            assert(cells(list@) =~= spec_grid_cells(n));
        }
        Grid { list }
    }

    /// The grid without every cell covered by the given body, food and
    /// gates; order and everything uncovered are kept.
    pub fn remove_occupied_positions(
        &self,
        body: &Vec<Point>,
        food: &Food,
        gates: Option<Vec<Option<Gate>>>,
        scale: i64,
    ) -> (g: Grid)
        requires
            1 <= scale <= SCALE_LIMIT,
            self.cells_ok(),
        ensures
            forall|j: int|
                0 <= j < g.model().len() ==> self.model().contains(#[trigger] g.model()[j])
                    && !spec_cell_occupied(
                    g.model()[j],
                    pts(body@),
                    *food,
                    match gates {
                        Some(gs) => Some(gs@),
                        None => None,
                    },
                    scale as int,
                ),
            forall|c: (int, int)|
                #[trigger] self.model().contains(c) && !spec_cell_occupied(
                    c,
                    pts(body@),
                    *food,
                    match gates {
                        Some(gs) => Some(gs@),
                        None => None,
                    },
                    scale as int,
                ) ==> g.model().contains(c),
            g.cells_ok(),
    {
        let ghost pred = |c: (int, int)|
            !spec_cell_occupied(
                c,
                pts(body@),
                *food,
                match gates {
                    Some(gs) => Some(gs@),
                    None => None,
                },
                scale as int,
            );
        let mut kept: Vec<(i64, i64)> = Vec::new();
        let mut i: usize = 0;
        proof {
            assert(self.model().take(0).filter(pred) =~= cells(kept@));
        }
        while i < self.list.len()
            invariant
                i <= self.list@.len(),
                1 <= scale <= SCALE_LIMIT,
                self.cells_ok(),
                cells(kept@) == self.model().take(i as int).filter(
                    pred,
                ),
                pred == (|c: (int, int)|
                    !spec_cell_occupied(
                        c,
                        pts(body@),
                        *food,
                        match gates {
                            Some(gs) => Some(gs@),
                            None => None,
                        },
                        scale as int,
                    )),
                forall|k: int|
                    0 <= k < kept@.len() ==> -CELL_LIMIT <= #[trigger] kept@[k].0 <= CELL_LIMIT
                        && -CELL_LIMIT <= kept@[k].1 <= CELL_LIMIT,
            decreases self.list@.len() - i,
        {
            let c = self.list[i];
            let covered = cell_covered(c, &body, food, &gates, scale);
            if !covered {
                kept.push(c);
            }
            proof {
                let prev = self.model().take(i as int);
                let cur = self.model().take(i + 1);
                assert(cur =~= prev + seq![pair_int(c)]);
                Seq::filter_distributes_over_add(prev, seq![pair_int(c)], pred);
                reveal_with_fuel(Seq::<_>::filter, 3);
                if covered {
                    assert(seq![pair_int(c)].filter(pred) =~= Seq::<(int, int)>::empty());
                    assert(cur.filter(pred) =~= prev.filter(pred));
                } else {
                    assert(seq![pair_int(c)].filter(pred) =~= seq![pair_int(c)]);
                }
                assert(cells(kept@) =~= cur.filter(pred));
            }
            i = i + 1;
        }
        proof {
            assert(self.model().take(self.list@.len() as int) =~= self.model());
            let out = cells(kept@);
            assert forall|j: int| 0 <= j < out.len() implies self.model().contains(
                #[trigger] out[j],
            ) && pred(out[j]) by {
                assert(out.contains(out[j]));
                lemma_filter_member(self.model(), pred, out[j]);
            }
            assert forall|c: (int, int)| #[trigger] self.model().contains(c) && pred(c) implies
                out.contains(c) by {
                let k = choose|k: int| 0 <= k < self.model().len() && self.model()[k] == c;
                assert(self.model().filter(pred).contains(self.model()[k]));
            }
        }
        Grid { list: kept }
    }

    /// A cell drawn uniformly from the grid; the grid must offer at least
    /// one.
    pub fn get_random_position(&self) -> (c: (i64, i64))
        requires
            self.list@.len() >= 1,
        ensures
            self.model().contains(pair_int(c)),
    {
        let i = random_below(self.list.len());
        let c = self.list[i];
        proof {
            assert(self.model()[i as int] == pair_int(c));
        }
        c
    }
}

/// Whether `c` is covered by a body point, the food, or a gate; the
/// executable counterpart of [`spec_cell_occupied`].
#[verifier::loop_isolation(false)]
fn cell_covered(
    c: (i64, i64),
    body: &Vec<Point>,
    food: &Food,
    gates: &Option<Vec<Option<Gate>>>,
    scale: i64,
) -> (r: bool)
    requires
        1 <= scale <= SCALE_LIMIT,
        -CELL_LIMIT <= c.0 <= CELL_LIMIT,
        -CELL_LIMIT <= c.1 <= CELL_LIMIT,
    ensures
        r == spec_cell_occupied(
            pair_int(c),
            pts(body@),
            *food,
            match *gates {
                Some(gs) => Some(gs@),
                None => None,
            },
            scale as int,
        ),
{
    proof {
        assert(-CELL_LIMIT * SCALE_LIMIT <= c.0 * scale <= CELL_LIMIT * SCALE_LIMIT)
            by (nonlinear_arith)
            requires
                1 <= scale <= SCALE_LIMIT,
                -CELL_LIMIT <= c.0 <= CELL_LIMIT,
        ;
        assert(-CELL_LIMIT * SCALE_LIMIT <= c.1 * scale <= CELL_LIMIT * SCALE_LIMIT)
            by (nonlinear_arith)
            requires
                1 <= scale <= SCALE_LIMIT,
                -CELL_LIMIT <= c.1 <= CELL_LIMIT,
        ;
    }
    let cx = c.0 * scale;
    let cy = c.1 * scale;
    let mut i: usize = 0;
    while i < body.len()
        invariant
            i <= body@.len(),
            cx == c.0 * scale,
            cy == c.1 * scale,
            forall|k: int|
                0 <= k < i ==> pt(#[trigger] body@[k]) != (c.0 * scale as int, c.1 * scale as int),
        decreases body@.len() - i,
    {
        let p = &body[i];
        if p.x == cx && p.y == cy {
            proof {
                assert(pts(body@)[i as int] == (
                    c.0 * scale as int,
                    c.1 * scale as int,
                ));
            }
            return true;
        }
        i = i + 1;
    }
    if food.x == c.0 && food.y == c.1 {
        return true;
    }
    if let Some(gs) = gates {
        let mut k: usize = 0;
        while k < gs.len()
            invariant
                k <= gs@.len(),
                forall|j: int|
                    0 <= j < k ==> !(#[trigger] gs@[j] matches Some(g) && g.x == c.0 && g.y
                        == c.1),
            decreases gs@.len() - k,
        {
            if let Some(g) = &gs[k] {
                if g.x == c.0 && g.y == c.1 {
                    proof {
                        assert((#[trigger] gs@[k as int]) matches Some(h) && h.x == c.0 && h.y
                            == c.1);
                    }
                    return true;
                }
            }
            k = k + 1;
        }
    }
    false
}

/// The composition root of one session.
pub struct Board {
    pub config: GlobalConfig,
    pub snake: Snake,
    pub food: Food,
    pub next_food: Option<Food>,
    pub current_delta: u64,
    pub grid: Grid,
    pub game_mode: GameMode,
    pub portal: Option<Portal>,
}

impl Board {
    pub open spec fn wf(self) -> bool {
        &&& self.config.wf()
        &&& self.snake.wf()
        &&& self.grid.cells_ok()
        &&& self.snake.frame_handler.config == self.config.computed_config
        &&& self.snake.game_mode == self.game_mode
        &&& (self.portal matches Some(p) ==> p.cells_ok())
    }

    /// A fresh session: snake at cell `(4, 4)` heading right, the seed food,
    /// the full interior grid, and no portal.
    pub fn new(config: GlobalConfig, game_mode: GameMode) -> (b: Board)
        requires
            config.wf(),
            spec_initial_len(
                config.computed_config.spec_scale(),
                config.computed_config.spec_step(),
            ) >= 1,
        ensures
            b.config == config,
            b.game_mode == game_mode,
            b.snake.model().body == crate::snake::spec_initial_body(
                4 * config.computed_config.spec_scale(),
                4 * config.computed_config.spec_scale(),
                config.computed_config.spec_step(),
                spec_initial_len(
                    config.computed_config.spec_scale(),
                    config.computed_config.spec_step(),
                ),
            ),
            b.snake.direction == crate::snake::Direction::Right,
            b.snake.request_direction == crate::snake::Direction::Right,
            b.snake.request_position is None,
            !b.snake.just_eat,
            b.snake.next_head is None,
            b.snake.blocks_to_add == 0,
            !b.snake.middle_block_passed,
            b.snake.jump is None,
            b.snake.frame_handler.config == config.computed_config,
            b.snake.frame_handler.current_delta == 0,
            b.food == (Food { x: 15, y: 15, exists: true }),
            b.next_food is None,
            b.current_delta == 0,
            b.grid.model() == spec_grid_cells(
                config.computed_config.board_size as int
                    / config.computed_config.block_size as int - 1,
            ),
            b.portal is None,
            b.wf(),
    {
        let frame_handler = FrameHandler::new(config.computed_config);
        let scale = frame_handler.scale() as i64;
        proof {
            assert(1 <= frame_handler.spec_step() <= 4096 * 4096) by (nonlinear_arith)
                requires
                    1 <= frame_handler.config.block_size <= 4096,
                    1 <= frame_handler.config.move_delay_num <= 4096,
                    frame_handler.spec_step() == frame_handler.config.block_size
                        * frame_handler.config.move_delay_num,
            ;
        }
        let snake = Snake::new(4 * scale, 4 * scale, frame_handler, game_mode);
        let grid = Grid::new(config.computed_config.board_size, config.computed_config.block_size);
        Board {
            config,
            snake,
            food: Food::new(),
            next_food: None,
            current_delta: 0,
            grid,
            game_mode,
            portal: None,
        }
    }
}

} // verus!
