//! The teleport subsystem: a pair of linked gates.
use vstd::prelude::*;
use crate::board::{spec_cell_free, Board};
use crate::snake::pair_int;
use crate::units::{ceil_div, lemma_ceil_div_le, spec_ceil_div, CELL_LIMIT};

verus! {

/// One endpoint of a teleport pair, at a whole cell. `used` becomes true
/// when the head arrives here; a used endpoint starts no teleport again,
/// but keeps blocking its cell.
#[derive(Clone, Copy, PartialEq, Eq, Structural)]
pub struct Gate {
    pub x: i64,
    pub y: i64,
    pub used: bool,
}

/// The two linked gates of one session.
#[derive(Clone)]
pub struct Portal {
    pub gates: Vec<Gate>,
    pub next: Option<u32>,
}

/// The signed taxicab-norm gap between two cells: how much closer to the
/// origin `b` sits than `a`, by the sum of coordinate magnitudes.
pub open spec fn spec_gate_separation(a: (int, int), b: (int, int)) -> int {
    (vstd::math::abs(a.0) + vstd::math::abs(a.1)) - (vstd::math::abs(b.0) + vstd::math::abs(b.1))
}

/// The least admissible separation on a board of `board_block_length` cells
/// per side: `ceil(board_block_length / 2)`.
pub open spec fn spec_min_separation(board_block_length: int) -> int {
    spec_ceil_div(board_block_length, 2)
}

/// Which of three candidate cells the second gate becomes: the first whose
/// separation from the first gate reaches `min_sep`, and unconditionally the
/// third when none does.
pub open spec fn spec_choose_second(
    first: (int, int),
    c1: (int, int),
    c2: (int, int),
    c3: (int, int),
    min_sep: int,
) -> (int, int) {
    if spec_gate_separation(first, c1) >= min_sep {
        c1
    } else if spec_gate_separation(first, c2) >= min_sep {
        c2
    } else {
        c3
    }
}

/// The bounded retry of gate generation cannot miss the separation
/// constraint silently: whatever the draws, the chosen second gate either
/// meets the board's minimum separation, or all three candidate draws failed
/// it and the third was accepted, so that generation still terminates with
/// two gates.
pub proof fn lemma_gate_separation_or_fallback(
    first: (int, int),
    c1: (int, int),
    c2: (int, int),
    c3: (int, int),
    board_block_length: int,
)
    ensures
        ({
            let m = spec_min_separation(board_block_length);
            let g = spec_choose_second(first, c1, c2, c3, m);
            spec_gate_separation(first, g) >= m || (spec_gate_separation(first, c1) < m
                && spec_gate_separation(first, c2) < m && g == c3)
        }),
{
}

/// The magnitude of a cell coordinate, on machine integers.
fn abs_cell(c: i64) -> (r: i64)
    requires
        -CELL_LIMIT <= c <= CELL_LIMIT,
    ensures
        r == vstd::math::abs(c as int),
{
    if c < 0 {
        -c
    } else {
        c
    }
}

/// Pick the second gate's cell from three candidate draws; the executable
/// counterpart of [`spec_choose_second`].
pub fn choose_second_gate(
    first: (i64, i64),
    c1: (i64, i64),
    c2: (i64, i64),
    c3: (i64, i64),
    min_sep: i64,
) -> (g: (i64, i64))
    requires
        -CELL_LIMIT <= first.0 <= CELL_LIMIT,
        -CELL_LIMIT <= first.1 <= CELL_LIMIT,
        -CELL_LIMIT <= c1.0 <= CELL_LIMIT,
        -CELL_LIMIT <= c1.1 <= CELL_LIMIT,
        -CELL_LIMIT <= c2.0 <= CELL_LIMIT,
        -CELL_LIMIT <= c2.1 <= CELL_LIMIT,
        0 <= min_sep <= CELL_LIMIT,
    ensures
        (g.0 as int, g.1 as int) == spec_choose_second(
            (first.0 as int, first.1 as int),
            (c1.0 as int, c1.1 as int),
            (c2.0 as int, c2.1 as int),
            (c3.0 as int, c3.1 as int),
            min_sep as int,
        ),
{
    let first_norm = abs_cell(first.0) + abs_cell(first.1);
    if first_norm - (abs_cell(c1.0) + abs_cell(c1.1)) >= min_sep {
        c1
    } else if first_norm - (abs_cell(c2.0) + abs_cell(c2.1)) >= min_sep {
        c2
    } else {
        c3
    }
}

/// Whether any gate in the sequence has been used.
pub open spec fn spec_any_used(gates: Seq<Gate>) -> bool {
    exists|i: int| 0 <= i < gates.len() && (#[trigger] gates[i]).used
}

/// Whether some gate in the sequence is still unused.
pub open spec fn spec_any_unused(gates: Seq<Gate>) -> bool {
    exists|i: int| 0 <= i < gates.len() && !(#[trigger] gates[i]).used
}

/// Whether an unused gate sits at `cell`: entering it triggers a teleport.
pub open spec fn spec_gate_hit(g: Gate, cell: (int, int)) -> bool {
    g.x == cell.0 && g.y == cell.1 && !g.used
}

impl Portal {
    /// Generate the session's gate pair. The first gate is drawn uniformly
    /// from the board's free cells; the second from the free cells without
    /// the first, accepting the first of three draws whose separation from
    /// the first gate reaches [`spec_min_separation`] and falling back to
    /// the third draw unconditionally, so generation always terminates with
    /// exactly two gates.
    pub fn new(board: &Board) -> (p: Portal)
        requires
            board.wf(),
            exists|a: (int, int), b: (int, int)|
                #![auto]
                spec_cell_free(*board, a) && spec_cell_free(*board, b) && a != b,
        ensures
            p.gates@.len() == 2,
            !p.gates@[0].used,
            !p.gates@[1].used,
            spec_cell_free(*board, (p.gates@[0].x as int, p.gates@[0].y as int)),
            spec_cell_free(*board, (p.gates@[1].x as int, p.gates@[1].y as int)),
            (p.gates@[1].x, p.gates@[1].y) != (p.gates@[0].x, p.gates@[0].y),
            p.next == Some(0u32),
            p.cells_ok(),
    {
        let scale = board.snake.frame_handler.scale() as i64;
        let free0 = board.grid.remove_occupied_positions(
            &board.snake.body,
            &board.food,
            None,
            scale,
        );
        proof {
            let (a, b) = choose|a: (int, int), b: (int, int)|
                #![auto]
                spec_cell_free(*board, a) && spec_cell_free(*board, b) && a != b;
            assert(free0.model().contains(a));
            assert(free0.model().len() > 0);
        }
        let c0 = free0.get_random_position();
        proof {
            let j = choose|j: int| 0 <= j < free0.model().len() && free0.model()[j] == pair_int(
                c0,
            );
            assert(spec_cell_free(*board, pair_int(c0)));
        }
        let gate0 = Gate { x: c0.0, y: c0.1, used: false };
        let mut taken: Vec<Option<Gate>> = Vec::new();
        taken.push(Some(gate0));
        let ghost taken0 = taken@;
        let free1 = board.grid.remove_occupied_positions(
            &board.snake.body,
            &board.food,
            Some(taken),
            scale,
        );
        proof {
            let (a, b) = choose|a: (int, int), b: (int, int)|
                #![auto]
                spec_cell_free(*board, a) && spec_cell_free(*board, b) && a != b;
            let w = if a != pair_int(c0) {
                a
            } else {
                b
            };
            assert(spec_cell_free(*board, w) && w != pair_int(c0));
            assert(free1.model().contains(w));
            assert(free1.model().len() > 0);
        }
        let c1 = free1.get_random_position();
        let c2 = free1.get_random_position();
        let c3 = free1.get_random_position();
        proof {
            assert forall|c: (i64, i64)| free1.model().contains(pair_int(c)) implies
                spec_cell_free(*board, pair_int(c)) && pair_int(c) != pair_int(c0) by {
                let j = choose|j: int|
                    0 <= j < free1.model().len() && free1.model()[j] == pair_int(c);
                assert(0 <= j < free1.model().len());
                assert(free1.model()[j] == pair_int(c));
                assert(board.grid.model().contains(free1.model()[j]));
                assert(taken0[0] == Some(gate0));
            }
            assert(-CELL_LIMIT <= c0.0 <= CELL_LIMIT && -CELL_LIMIT <= c0.1 <= CELL_LIMIT) by {
                let j = choose|j: int|
                    0 <= j < free0.model().len() && free0.model()[j] == pair_int(c0);
                let k = choose|k: int|
                    0 <= k < board.grid.model().len() && board.grid.model()[k] == pair_int(c0);
            }
            assert forall|c: (i64, i64)| free1.model().contains(pair_int(c)) implies -CELL_LIMIT
                <= c.0 <= CELL_LIMIT && -CELL_LIMIT <= c.1 <= CELL_LIMIT by {
                let j = choose|j: int|
                    0 <= j < free1.model().len() && free1.model()[j] == pair_int(c);
            }
        }
        let min_sep = ceil_div(board.config.config.board.board_block_length as u64, 2);
        proof {
            lemma_ceil_div_le(board.config.config.board.board_block_length as int, 2);
        }
        let chosen = choose_second_gate(c0, c1, c2, c3, min_sep as i64);
        proof {
            assert(chosen == c1 || chosen == c2 || chosen == c3);
            assert(free1.model().contains(pair_int(chosen)));
        }
        let mut gates: Vec<Gate> = Vec::new();
        gates.push(gate0);
        gates.push(Gate { x: chosen.0, y: chosen.1, used: false });
        let p = Portal { gates, next: Some(0) };
        proof {
            assert(p.gates@[0] == gate0);
            assert(p.gates@[1] == (Gate { x: chosen.0, y: chosen.1, used: false }));
        }
        p
    }

    /// Every gate cell within the magnitude the kernel's arithmetic admits.
    pub open spec fn cells_ok(self) -> bool {
        forall|i: int|
            0 <= i < self.gates@.len() ==> -CELL_LIMIT <= #[trigger] self.gates@[i].x <= CELL_LIMIT
                && -CELL_LIMIT <= self.gates@[i].y <= CELL_LIMIT
    }

    /// Whether some gate of this portal is still unused, i.e. a teleport
    /// destination is still available.
    pub fn has_unused(&self) -> (r: bool)
        ensures
            r == spec_any_unused(self.gates@),
    {
        let mut i: usize = 0;
        while i < self.gates.len()
            invariant
                i <= self.gates@.len(),
                forall|k: int| 0 <= k < i ==> (#[trigger] self.gates@[k]).used,
            decreases self.gates@.len() - i,
        {
            if !self.gates[i].used {
                proof {
                    assert(!(self.gates@[i as int]).used);
                }
                return true;
            }
            i = i + 1;
        }
        false
    }

    /// Whether any gate of the given portal has been used.
    #[verifier::loop_isolation(false)]
    pub fn is_used(&self, portal: Option<Portal>) -> (r: bool)
        requires
            portal is Some,
        ensures
            r == spec_any_used(portal.unwrap().gates@),
    {
        let ghost given = portal;
        let p = portal.unwrap();
        let mut i: usize = 0;
        while i < p.gates.len()
            invariant
                i <= p.gates@.len(),
                given is Some,
                p == given.unwrap(),
                forall|k: int| 0 <= k < i ==> !(#[trigger] p.gates@[k]).used,
            decreases p.gates@.len() - i,
        {
            if p.gates[i].used {
                proof {
                    assert(spec_any_used(given.unwrap().gates@)) by {
                        assert((given.unwrap().gates@[i as int]).used);
                    }
                }
                return true;
            }
            i = i + 1;
        }
        false
    }
}

} // verus!
