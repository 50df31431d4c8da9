//! The mathematical model of a board: its dimensions, its topology and its
//! cells in row-major order, with the adjacency and the mine count that the
//! rest of the engine is stated over.

use vstd::prelude::*;
use crate::cell::CellState;

verus! {

/// The mine fraction of a board is a fixed-point number: `fraction` parts out
/// of `FRACTION_SCALE`. A cell is mined when a uniform draw below the scale
/// falls below the fraction.
pub const FRACTION_SCALE: u64 = 0x20_0000_0000_0000;

/// The number of neighbours a cell can have.
pub const NEIGHBOR_COUNT: usize = 8;

/// A coordinate on the board.
#[derive(Clone, Copy, PartialEq, Eq, Structural, Debug)]
pub struct GridPos {
    pub row: usize,
    pub col: usize,
}

/// The abstract value of a grid.
pub struct Board {
    pub height: nat,
    pub width: nat,
    pub fraction: nat,
    pub torus: bool,
    /// The cells, row after row.
    pub cells: Seq<CellState>,
}

impl Board {
    /// Both dimensions are positive, there is one cell per coordinate, and
    /// the mine fraction is at most one.
    pub open spec fn wf(self) -> bool {
        &&& self.height >= 1
        &&& self.width >= 1
        &&& self.cells.len() == self.height * self.width
        &&& self.cells.len() <= usize::MAX
        &&& self.fraction <= FRACTION_SCALE
    }

    /// The board has the dimensions, topology and mine fraction of `other`.
    pub open spec fn same_shape(self, other: Board) -> bool {
        &&& self.height == other.height
        &&& self.width == other.width
        &&& self.fraction == other.fraction
        &&& self.torus == other.torus
        &&& self.cells.len() == other.cells.len()
    }

    /// `pos` lies on the board.
    pub open spec fn contains(self, pos: GridPos) -> bool {
        pos.row < self.height && pos.col < self.width
    }

    /// The place of `pos` in the row-major cell sequence.
    pub open spec fn index_of(self, pos: GridPos) -> int {
        pos.row * self.width + pos.col
    }

    /// The coordinate stored at place `i` of the cell sequence.
    pub open spec fn pos_of(self, i: int) -> GridPos {
        GridPos { row: (i / self.width as int) as usize, col: (i % self.width as int) as usize }
    }

    /// The state of the cell at `pos`.
    pub open spec fn cell(self, pos: GridPos) -> CellState {
        self.cells[self.index_of(pos)]
    }

    /// The board with the cell at `pos` replaced by `state`.
    pub open spec fn put(self, pos: GridPos, state: CellState) -> Board {
        Board { cells: self.cells.update(self.index_of(pos), state), ..self }
    }

    /// The cell one row up. On a torus the first row wraps to the last; on a
    /// bounded board the first row has nothing above it.
    pub open spec fn above(self, pos: GridPos) -> Option<GridPos> {
        if pos.row > 0 {
            Some(GridPos { row: (pos.row - 1) as usize, col: pos.col })
        } else if self.torus {
            Some(GridPos { row: (self.height - 1) as usize, col: pos.col })
        } else {
            None
        }
    }

    /// The cell one row down. On a torus the last row wraps to the first.
    pub open spec fn below(self, pos: GridPos) -> Option<GridPos> {
        if pos.row + 1 < self.height {
            Some(GridPos { row: (pos.row + 1) as usize, col: pos.col })
        } else if self.torus {
            Some(GridPos { row: 0, col: pos.col })
        } else {
            None
        }
    }

    /// The cell one column to the left. On a torus the first column wraps to
    /// the last.
    pub open spec fn left(self, pos: GridPos) -> Option<GridPos> {
        if pos.col > 0 {
            Some(GridPos { row: pos.row, col: (pos.col - 1) as usize })
        } else if self.torus {
            Some(GridPos { row: pos.row, col: (self.width - 1) as usize })
        } else {
            None
        }
    }

    /// The cell one column to the right. On a torus the last column wraps to
    /// the first.
    pub open spec fn right(self, pos: GridPos) -> Option<GridPos> {
        if pos.col + 1 < self.width {
            Some(GridPos { row: pos.row, col: (pos.col + 1) as usize })
        } else if self.torus {
            Some(GridPos { row: pos.row, col: 0 })
        } else {
            None
        }
    }

    /// The cell to the left of `pos`, where `pos` itself exists.
    pub open spec fn left_of(self, pos: Option<GridPos>) -> Option<GridPos> {
        match pos {
            Some(p) => self.left(p),
            None => None,
        }
    }

    /// The cell to the right of `pos`, where `pos` itself exists.
    pub open spec fn right_of(self, pos: Option<GridPos>) -> Option<GridPos> {
        match pos {
            Some(p) => self.right(p),
            None => None,
        }
    }

    /// The `k`-th neighbour of `pos`: above, below, left, right, then the
    /// four diagonals, the upper ones first. A neighbour beyond the edge of a
    /// bounded board is `None`.
    pub open spec fn neighbor(self, pos: GridPos, k: int) -> Option<GridPos> {
        if k == 0 {
            self.above(pos)
        } else if k == 1 {
            self.below(pos)
        } else if k == 2 {
            self.left(pos)
        } else if k == 3 {
            self.right(pos)
        } else if k == 4 {
            self.left_of(self.above(pos))
        } else if k == 5 {
            self.right_of(self.above(pos))
        } else if k == 6 {
            self.left_of(self.below(pos))
        } else if k == 7 {
            self.right_of(self.below(pos))
        } else {
            None
        }
    }

    /// The eight neighbours of `pos` in their fixed order.
    pub open spec fn neighbors(self, pos: GridPos) -> Seq<Option<GridPos>> {
        Seq::new(NEIGHBOR_COUNT as nat, |k: int| self.neighbor(pos, k))
    }

    /// `q` is one of the neighbours of `p`.
    pub open spec fn adjacent(self, p: GridPos, q: GridPos) -> bool {
        exists|k: int| 0 <= k < NEIGHBOR_COUNT && #[trigger] self.neighbor(p, k) == Some(q)
    }

    /// One if an unflagged mine lies at `pos`, zero if not or if there is no
    /// such cell.
    pub open spec fn mine_at(self, pos: Option<GridPos>) -> nat {
        match pos {
            Some(p) => if self.cell(p).is_mine() {
                1
            } else {
                0
            },
            None => 0,
        }
    }

    /// The number of unflagged mines among the first `k` neighbours of `pos`.
    pub open spec fn mines_among(self, pos: GridPos, k: int) -> nat
        decreases k,
    {
        if k <= 0 {
            0
        } else {
            self.mines_among(pos, k - 1) + self.mine_at(self.neighbor(pos, k - 1))
        }
    }

    /// The number shown on an opened cell: how many of its eight neighbour
    /// slots hold an unflagged mine. A flagged mine is not counted. On a
    /// small torus one cell can fill several slots and is counted in each.
    pub open spec fn n_bombs(self, pos: GridPos) -> nat {
        self.mines_among(pos, NEIGHBOR_COUNT as int)
    }

    /// Every cell is opened or flagged.
    pub open spec fn is_win(self) -> bool {
        forall|p: GridPos| self.contains(p) ==> (#[trigger] self.cell(p)).is_cleared()
    }

    /// Some cell records a losing move.
    pub open spec fn has_explosion(self) -> bool {
        exists|p: GridPos| self.contains(p) && (#[trigger] self.cell(p)).is_exploded()
    }

    /// Some cell is still concealed.
    pub open spec fn has_secret(self) -> bool {
        exists|p: GridPos| self.contains(p) && (#[trigger] self.cell(p)).is_secret()
    }

    /// The board after a losing move is taken back: each exploded cell is
    /// concealed again and keeps its content.
    pub open spec fn clear_explosions(self) -> Board {
        Board { cells: Seq::new(self.cells.len(), |i: int| self.cells[i].unexploded()), ..self }
    }

    /// The board with the mines laid by `draws`, one draw for each cell in
    /// row-major order. Every cell is concealed, whatever it was before.
    pub open spec fn lay(self, draws: Seq<u64>) -> Board {
        Board {
            cells: Seq::new(self.cells.len(), |i: int| CellState::drawn(draws[i], self.fraction)),
            ..self
        }
    }

    /// Every coordinate of the board, row after row.
    pub open spec fn positions(self) -> Seq<GridPos> {
        Seq::new(self.cells.len(), |i: int| self.pos_of(i))
    }
}

/// A coordinate on the board has its place inside the cell sequence.
pub proof fn lemma_index_in_range(b: Board, pos: GridPos)
    requires
        b.wf(),
        b.contains(pos),
    ensures
        0 <= b.index_of(pos) < b.cells.len(),
        b.pos_of(b.index_of(pos)) == pos,
{
    let r = pos.row as int;
    let c = pos.col as int;
    let h = b.height as int;
    let w = b.width as int;
    assert(0 <= r * w + c < h * w) by (nonlinear_arith)
        requires
            0 <= r < h,
            0 <= c < w,
    ;
    vstd::arithmetic::div_mod::lemma_fundamental_div_mod_converse(r * w + c, w, r, c);
}

/// Each place of the cell sequence belongs to one coordinate on the board.
pub proof fn lemma_pos_of_index(b: Board, i: int)
    requires
        b.wf(),
        0 <= i < b.cells.len(),
    ensures
        b.contains(b.pos_of(i)),
        b.index_of(b.pos_of(i)) == i,
{
    let h = b.height as int;
    let w = b.width as int;
    vstd::arithmetic::div_mod::lemma_fundamental_div_mod(i, w);
    vstd::arithmetic::div_mod::lemma_mod_bound(i, w);
    let q = i / w;
    let m = i % w;
    assert(0 <= q < h) by (nonlinear_arith)
        requires
            0 <= i < h * w,
            i == w * q + m,
            0 <= m < w,
            w > 0,
    ;
    assert(w * q == q * w) by (nonlinear_arith);
}

/// Two coordinates on the board with the same place are the same.
pub proof fn lemma_index_injective(b: Board, p: GridPos, q: GridPos)
    requires
        b.wf(),
        b.contains(p),
        b.contains(q),
        b.index_of(p) == b.index_of(q),
    ensures
        p == q,
{
    lemma_index_in_range(b, p);
    lemma_index_in_range(b, q);
}

/// Reading a cell after one cell was replaced.
pub proof fn lemma_put_cell(b: Board, pos: GridPos, state: CellState, q: GridPos)
    requires
        b.wf(),
        b.contains(pos),
        b.contains(q),
    ensures
        b.put(pos, state).cell(q) == (if q == pos {
            state
        } else {
            b.cell(q)
        }),
        b.put(pos, state).wf(),
        b.put(pos, state).same_shape(b),
{
    lemma_index_in_range(b, pos);
    lemma_index_in_range(b, q);
    if q != pos {
        if b.index_of(pos) == b.index_of(q) {
            lemma_index_injective(b, pos, q);
        }
    }
}

/// Reading a cell after a losing move was taken back.
pub proof fn lemma_clear_explosions_cell(b: Board, p: GridPos)
    requires
        b.wf(),
        b.contains(p),
    ensures
        b.clear_explosions().wf(),
        b.clear_explosions().same_shape(b),
        b.clear_explosions().cell(p) == b.cell(p).unexploded(),
{
    lemma_index_in_range(b, p);
}

/// Both dimensions fit the machine word.
pub proof fn lemma_dims_fit(b: Board)
    requires
        b.wf(),
    ensures
        b.height <= usize::MAX,
        b.width <= usize::MAX,
{
    let h = b.height as int;
    let w = b.width as int;
    assert(h <= h * w && w <= h * w) by (nonlinear_arith)
        requires
            h >= 1,
            w >= 1,
    ;
}

/// The four straight neighbours of a cell on the board lie on the board.
pub proof fn lemma_step_in_bounds(b: Board, pos: GridPos)
    requires
        b.wf(),
        b.contains(pos),
    ensures
        b.above(pos) matches Some(q) ==> b.contains(q) && q.col == pos.col,
        b.below(pos) matches Some(q) ==> b.contains(q) && q.col == pos.col,
        b.left(pos) matches Some(q) ==> b.contains(q) && q.row == pos.row,
        b.right(pos) matches Some(q) ==> b.contains(q) && q.row == pos.row,
{
    lemma_dims_fit(b);
}

/// Every neighbour of a cell on the board lies on the board.
pub proof fn lemma_neighbor_in_bounds(b: Board, pos: GridPos, k: int)
    requires
        b.wf(),
        b.contains(pos),
    ensures
        b.neighbor(pos, k) matches Some(q) ==> b.contains(q),
{
    lemma_step_in_bounds(b, pos);
    if let Some(a) = b.above(pos) {
        lemma_step_in_bounds(b, a);
    }
    if let Some(a) = b.below(pos) {
        lemma_step_in_bounds(b, a);
    }
}

/// The slot in which a cell finds the neighbour that has it in slot `k`:
/// above and below, left and right, and the diagonals across.
pub open spec fn opposite(k: int) -> int {
    if k == 0 {
        1
    } else if k == 1 {
        0
    } else if k == 2 {
        3
    } else if k == 3 {
        2
    } else if k == 4 {
        7
    } else if k == 5 {
        6
    } else if k == 6 {
        5
    } else {
        4
    }
}

/// Each straight step on the board is undone by the step the other way.
pub proof fn lemma_step_back(b: Board, p: GridPos)
    requires
        b.wf(),
        b.contains(p),
    ensures
        b.above(p) matches Some(q) ==> b.below(q) == Some(p),
        b.below(p) matches Some(q) ==> b.above(q) == Some(p),
        b.left(p) matches Some(q) ==> b.right(q) == Some(p),
        b.right(p) matches Some(q) ==> b.left(q) == Some(p),
{
    lemma_dims_fit(b);
}

/// A step up or down depends on the row alone and keeps the column; a step
/// left or right depends on the column alone and keeps the row.
pub proof fn lemma_step_by_axis(b: Board, p: GridPos, q: GridPos)
    requires
        b.wf(),
        b.contains(p),
        b.contains(q),
    ensures
        p.row == q.row ==> (b.above(p) matches Some(a) ==> b.above(q) == Some(
            GridPos { row: a.row, col: q.col },
        )),
        p.row == q.row ==> (b.below(p) matches Some(a) ==> b.below(q) == Some(
            GridPos { row: a.row, col: q.col },
        )),
        p.col == q.col ==> (b.left(p) matches Some(a) ==> b.left(q) == Some(
            GridPos { row: q.row, col: a.col },
        )),
        p.col == q.col ==> (b.right(p) matches Some(a) ==> b.right(q) == Some(
            GridPos { row: q.row, col: a.col },
        )),
{
    lemma_dims_fit(b);
}

/// A diagonal step, made of a step `up` or down to `a` and a step left or
/// right to `q`, is undone by the two steps the other way.
proof fn lemma_diagonal_back(b: Board, p: GridPos, a: GridPos, q: GridPos, up: bool, to_left: bool)
    requires
        b.wf(),
        b.contains(p),
        Some(a) == (if up {
            b.above(p)
        } else {
            b.below(p)
        }),
        Some(q) == (if to_left {
            b.left(a)
        } else {
            b.right(a)
        }),
    ensures
        b.contains(q),
        (if to_left {
            b.right_of(if up {
                b.below(q)
            } else {
                b.above(q)
            })
        } else {
            b.left_of(if up {
                b.below(q)
            } else {
                b.above(q)
            })
        }) == Some(p),
{
    lemma_step_in_bounds(b, p);
    lemma_step_in_bounds(b, a);
    lemma_step_back(b, p);
    lemma_step_back(b, a);
    // The way back starts with the step in the row direction, from `q` to
    // the cell `c` in the row of `p`.
    let c = GridPos { row: p.row, col: q.col };
    lemma_step_by_axis(b, a, q);
    assert((if up {
        b.below(q)
    } else {
        b.above(q)
    }) == Some(c));
    lemma_step_by_axis(b, q, c);
    assert(b.contains(c));
}

/// Being neighbours is mutual: a cell is a neighbour of each of its
/// neighbours, in the opposite slot.
pub proof fn lemma_neighbor_symmetric(b: Board, p: GridPos, k: int)
    requires
        b.wf(),
        b.contains(p),
        0 <= k < NEIGHBOR_COUNT,
    ensures
        b.neighbor(p, k) matches Some(q) ==> b.contains(q) && b.neighbor(q, opposite(k)) == Some(p),
{
    lemma_neighbor_in_bounds(b, p, k);
    if let Some(q) = b.neighbor(p, k) {
        if k < 4 {
            lemma_step_back(b, p);
        } else if k == 4 {
            lemma_diagonal_back(b, p, b.above(p)->Some_0, q, true, true);
        } else if k == 5 {
            lemma_diagonal_back(b, p, b.above(p)->Some_0, q, true, false);
        } else if k == 6 {
            lemma_diagonal_back(b, p, b.below(p)->Some_0, q, false, true);
        } else {
            lemma_diagonal_back(b, p, b.below(p)->Some_0, q, false, false);
        }
    }
}

/// A cell whose mine count is zero has no unflagged mine beside it, and a
/// cell with no unflagged mine beside it has the count zero.
pub proof fn lemma_zero_count(b: Board, pos: GridPos)
    ensures
        b.n_bombs(pos) == 0 <==> (forall|k: int|
            0 <= k < NEIGHBOR_COUNT ==> b.mine_at(#[trigger] b.neighbor(pos, k)) == 0),
{
    reveal_with_fuel(Board::mines_among, 9);
    if b.n_bombs(pos) == 0 {
        assert forall|k: int| 0 <= k < NEIGHBOR_COUNT implies b.mine_at(
            #[trigger] b.neighbor(pos, k),
        ) == 0 by {
            assert(k == 0 || k == 1 || k == 2 || k == 3 || k == 4 || k == 5 || k == 6 || k == 7);
        }
    } else {
        assert(b.mine_at(b.neighbor(pos, 0)) != 0 || b.mine_at(b.neighbor(pos, 1)) != 0
            || b.mine_at(b.neighbor(pos, 2)) != 0 || b.mine_at(b.neighbor(pos, 3)) != 0
            || b.mine_at(b.neighbor(pos, 4)) != 0 || b.mine_at(b.neighbor(pos, 5)) != 0
            || b.mine_at(b.neighbor(pos, 6)) != 0 || b.mine_at(b.neighbor(pos, 7)) != 0);
    }
}

/// Replacing a cell that is not a neighbour of `q` leaves the mine count of
/// `q` as it was.
pub proof fn lemma_put_far_keeps_count(b: Board, pos: GridPos, state: CellState, q: GridPos)
    requires
        b.wf(),
        b.contains(pos),
        b.contains(q),
        forall|k: int| 0 <= k < NEIGHBOR_COUNT ==> #[trigger] b.neighbor(q, k) != Some(pos),
    ensures
        b.put(pos, state).n_bombs(q) == b.n_bombs(q),
{
    reveal_with_fuel(Board::mines_among, 9);
    let next = b.put(pos, state);
    assert forall|k: int| 0 <= k < NEIGHBOR_COUNT implies next.mine_at(
        #[trigger] next.neighbor(q, k),
    ) == b.mine_at(b.neighbor(q, k)) by {
        assert(next.neighbor(q, k) == b.neighbor(q, k));
        lemma_neighbor_in_bounds(b, q, k);
        if let Some(n) = b.neighbor(q, k) {
            lemma_put_cell(b, pos, state, n);
        }
    }
    assert(next.mine_at(next.neighbor(q, 0)) == b.mine_at(b.neighbor(q, 0)));
    assert(next.mine_at(next.neighbor(q, 1)) == b.mine_at(b.neighbor(q, 1)));
    assert(next.mine_at(next.neighbor(q, 2)) == b.mine_at(b.neighbor(q, 2)));
    assert(next.mine_at(next.neighbor(q, 3)) == b.mine_at(b.neighbor(q, 3)));
    assert(next.mine_at(next.neighbor(q, 4)) == b.mine_at(b.neighbor(q, 4)));
    assert(next.mine_at(next.neighbor(q, 5)) == b.mine_at(b.neighbor(q, 5)));
    assert(next.mine_at(next.neighbor(q, 6)) == b.mine_at(b.neighbor(q, 6)));
    assert(next.mine_at(next.neighbor(q, 7)) == b.mine_at(b.neighbor(q, 7)));
}

/// Replacing a cell by a state that is a mine exactly if the old one was
/// leaves every mine count as it was.
pub proof fn lemma_put_alike_keeps_count(b: Board, pos: GridPos, state: CellState, q: GridPos)
    requires
        b.wf(),
        b.contains(pos),
        b.contains(q),
        b.cell(pos).is_mine() == state.is_mine(),
    ensures
        b.put(pos, state).n_bombs(q) == b.n_bombs(q),
{
    let next = b.put(pos, state);
    assert forall|p: GridPos| b.contains(p) implies b.cell(p).is_mine() == next.cell(p).is_mine() by {
        lemma_put_cell(b, pos, state, p);
    }
    lemma_put_cell(b, pos, state, pos);
    lemma_same_mines_same_count(b, next, q);
}

/// Two boards of one shape whose cells agree on where the unflagged mines
/// are give every cell the same mine count.
pub proof fn lemma_same_mines_same_count(a: Board, b: Board, pos: GridPos)
    requires
        a.wf(),
        b.same_shape(a),
        a.contains(pos),
        forall|q: GridPos| a.contains(q) ==> a.cell(q).is_mine() == b.cell(q).is_mine(),
    ensures
        a.n_bombs(pos) == b.n_bombs(pos),
{
    reveal_with_fuel(Board::mines_among, 9);
    assert forall|k: int| 0 <= k < NEIGHBOR_COUNT implies a.mine_at(a.neighbor(pos, k))
        == b.mine_at(#[trigger] b.neighbor(pos, k)) by {
        lemma_neighbor_in_bounds(a, pos, k);
        assert(a.neighbor(pos, k) == b.neighbor(pos, k));
    }
    assert(a.mine_at(a.neighbor(pos, 0)) == b.mine_at(b.neighbor(pos, 0)));
    assert(a.mine_at(a.neighbor(pos, 1)) == b.mine_at(b.neighbor(pos, 1)));
    assert(a.mine_at(a.neighbor(pos, 2)) == b.mine_at(b.neighbor(pos, 2)));
    assert(a.mine_at(a.neighbor(pos, 3)) == b.mine_at(b.neighbor(pos, 3)));
    assert(a.mine_at(a.neighbor(pos, 4)) == b.mine_at(b.neighbor(pos, 4)));
    assert(a.mine_at(a.neighbor(pos, 5)) == b.mine_at(b.neighbor(pos, 5)));
    assert(a.mine_at(a.neighbor(pos, 6)) == b.mine_at(b.neighbor(pos, 6)));
    assert(a.mine_at(a.neighbor(pos, 7)) == b.mine_at(b.neighbor(pos, 7)));
}

} // verus!
