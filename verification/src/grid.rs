//! The grid: the cells of a board in one row-major buffer, with the
//! coordinate arithmetic for both topologies.

use vstd::prelude::*;
use crate::board::{
    lemma_index_in_range, lemma_neighbor_in_bounds, lemma_pos_of_index, lemma_step_in_bounds,
    Board, GridPos, FRACTION_SCALE, NEIGHBOR_COUNT,
};
use crate::laws::{
    lemma_clear_explosions_clears, lemma_clear_explosions_keeps_flooded,
    lemma_win_leaves_nothing_secret,
};
use crate::cell::CellState;

verus! {

/// Why a board cannot be made from a configuration.
#[derive(Clone, Copy, PartialEq, Eq, Structural, Debug)]
pub enum ConfigError {
    /// The height or the width is zero.
    EmptyBoard,
    /// The mine fraction is more than one.
    FractionOutOfRange,
    /// The number of cells does not fit the machine word.
    TooManyCells,
}

impl ConfigError {
    /// The fault in words.
    pub open spec fn text(self) -> &'static str {
        match self {
            ConfigError::EmptyBoard => "height and width must be at least 1",
            ConfigError::FractionOutOfRange => "the mine fraction must be at most 1",
            ConfigError::TooManyCells => "the board has too many cells",
        }
    }

    /// The fault in words.
    pub fn message(self) -> (words: &'static str)
        ensures
            words == self.text(),
    {
        match self {
            ConfigError::EmptyBoard => "height and width must be at least 1",
            ConfigError::FractionOutOfRange => "the mine fraction must be at most 1",
            ConfigError::TooManyCells => "the board has too many cells",
        }
    }
}

/// The two ways the edges of a board can behave.
#[derive(Clone, Copy, PartialEq, Eq, Structural, Debug)]
pub enum Topology {
    /// The board ends at its edges.
    Bounded,
    /// Opposite edges are joined.
    Torus,
}

/// The first fault of a configuration, if it has one: an empty board is
/// reported before a fraction out of range, and that before a board too large.
pub open spec fn config_error(height: usize, width: usize, fraction: u64) -> Option<ConfigError> {
    if height == 0 || width == 0 {
        Some(ConfigError::EmptyBoard)
    } else if fraction > FRACTION_SCALE {
        Some(ConfigError::FractionOutOfRange)
    } else if height * width > usize::MAX {
        Some(ConfigError::TooManyCells)
    } else {
        None
    }
}

/// The board on which every cell is concealed and safe.
pub open spec fn blank_board(height: usize, width: usize, fraction: u64, torus: bool) -> Board {
    Board {
        height: height as nat,
        width: width as nat,
        fraction: fraction as nat,
        torus,
        cells: Seq::new((height * width) as nat, |i: int| CellState::SecretSafe),
    }
}

/// A minesweeper board.
#[derive(Clone, PartialEq, Eq, Debug)]
pub struct Grid {
    storage: Vec<CellState>,
    height: usize,
    width: usize,
    fraction: u64,
    torus: bool,
}

impl View for Grid {
    type V = Board;

    closed spec fn view(&self) -> Board {
        Board {
            height: self.height as nat,
            width: self.width as nat,
            fraction: self.fraction as nat,
            torus: self.torus,
            cells: self.storage@,
        }
    }
}

impl Grid {
    /// The grid stands for a well-formed board.
    pub open spec fn wf(&self) -> bool {
        self@.wf()
    }

    /// A grid of the given configuration with every cell concealed and safe,
    /// or the first fault of the configuration.
    pub fn blank(height: usize, width: usize, fraction: u64, torus: bool) -> (r: Result<
        Grid,
        ConfigError,
    >)
        ensures
            match config_error(height, width, fraction) {
                Some(e) => r == Err::<Grid, ConfigError>(e),
                None => r is Ok && r->Ok_0.wf() && r->Ok_0@ == blank_board(
                    height,
                    width,
                    fraction,
                    torus,
                ),
            },
    {
        if height == 0 || width == 0 {
            return Err(ConfigError::EmptyBoard);
        }
        if fraction > FRACTION_SCALE {
            return Err(ConfigError::FractionOutOfRange);
        }
        match height.checked_mul(width) {
            None => Err(ConfigError::TooManyCells),
            Some(len) => {
                let mut storage: Vec<CellState> = Vec::new();
                let mut i: usize = 0;
                while i < len
                    invariant
                        i <= len,
                        storage@.len() == i,
                        forall|j: int| 0 <= j < i ==> storage@[j] == CellState::SecretSafe,
                    decreases len - i,
                {
                    storage.push(CellState::SecretSafe);
                    i += 1;
                }
                let grid = Grid { storage, height, width, fraction, torus };
                assert(grid@.cells =~= blank_board(height, width, fraction, torus).cells);
                Ok(grid)
            },
        }
    }

    /// The number of rows.
    pub fn height(&self) -> (h: usize)
        ensures
            h == self@.height,
    {
        self.height
    }

    /// The number of columns.
    pub fn width(&self) -> (w: usize)
        ensures
            w == self@.width,
    {
        self.width
    }

    /// A copy of the grid as it is now. A view that keeps one can tell
    /// later, with `same_as`, whether the board has changed since.
    pub fn snapshot(&self) -> (copy: Grid)
        requires
            self.wf(),
        ensures
            copy.wf(),
            copy@ == self@,
    {
        let len = self.storage.len();
        let mut storage: Vec<CellState> = Vec::new();
        let mut i: usize = 0;
        while i < len
            invariant
                len == self@.cells.len(),
                i <= len,
                storage@.len() == i,
                forall|j: int| 0 <= j < i ==> storage@[j] == self@.cells[j],
            decreases len - i,
        {
            storage.push(self.storage[i]);
            i += 1;
        }
        assert(storage@ =~= self@.cells);
        Grid {
            storage,
            height: self.height,
            width: self.width,
            fraction: self.fraction,
            torus: self.torus,
        }
    }

    /// Whether the two grids stand for the same board: the same shape and
    /// the same state in every cell.
    pub fn same_as(&self, other: &Grid) -> (same: bool)
        requires
            self.wf(),
            other.wf(),
        ensures
            same == (self@ == other@),
    {
        if self.height != other.height || self.width != other.width || self.fraction
            != other.fraction || self.torus != other.torus {
            return false;
        }
        let len = self.storage.len();
        let mut i: usize = 0;
        while i < len
            invariant
                len == self@.cells.len(),
                len == other@.cells.len(),
                i <= len,
                forall|j: int| 0 <= j < i ==> self@.cells[j] == other@.cells[j],
            decreases len - i,
        {
            if self.storage[i] != other.storage[i] {
                return false;
            }
            i += 1;
        }
        assert(self@.cells =~= other@.cells);
        true
    }

    /// The number of cells.
    pub fn cell_count(&self) -> (n: usize)
        ensures
            n == self@.cells.len(),
    {
        self.storage.len()
    }

    /// The mine fraction, in parts of `FRACTION_SCALE`.
    pub fn fraction(&self) -> (f: u64)
        ensures
            f == self@.fraction,
    {
        self.fraction
    }

    /// Whether the edges are joined.
    pub fn topology(&self) -> (t: Topology)
        ensures
            t == (if self@.torus {
                Topology::Torus
            } else {
                Topology::Bounded
            }),
    {
        if self.torus {
            Topology::Torus
        } else {
            Topology::Bounded
        }
    }

    /// Whether `pos` lies on the board.
    pub fn contains(&self, pos: GridPos) -> (r: bool)
        ensures
            r == self@.contains(pos),
    {
        pos.row < self.height && pos.col < self.width
    }

    /// The state of the cell at `pos`.
    pub fn get(&self, pos: GridPos) -> (state: CellState)
        requires
            self.wf(),
            self@.contains(pos),
        ensures
            state == self@.cell(pos),
    {
        proof {
            lemma_index_in_range(self@, pos);
        }
        let idx = pos.row * self.width + pos.col;
        self.storage[idx]
    }

    /// Replaces the state of the cell at `pos`.
    pub fn set(&mut self, pos: GridPos, state: CellState)
        requires
            old(self).wf(),
            old(self)@.contains(pos),
        ensures
            final(self)@ == old(self)@.put(pos, state),
            final(self).wf(),
    {
        proof {
            lemma_index_in_range(self@, pos);
        }
        let idx = pos.row * self.width + pos.col;
        self.storage[idx] = state;
    }

    /// Lays the mines anew from `draws`, one draw for each cell in row-major
    /// order: a cell is mined where its draw falls below the mine fraction.
    /// Every cell is concealed afterwards.
    pub fn lay_mines(&mut self, draws: &Vec<u64>)
        requires
            old(self).wf(),
            draws@.len() == old(self)@.cells.len(),
        ensures
            final(self).wf(),
            final(self)@ == old(self)@.lay(draws@),
    {
        let len = self.storage.len();
        let mut i: usize = 0;
        while i < len
            invariant
                self.wf(),
                self@.same_shape(old(self)@),
                len == self@.cells.len(),
                draws@.len() == len,
                i <= len,
                forall|j: int|
                    0 <= j < i ==> self@.cells[j] == CellState::drawn(
                        draws@[j],
                        self@.fraction,
                    ),
            decreases len - i,
        {
            self.storage[i] = CellState::from_draw(draws[i], self.fraction);
            i += 1;
        }
        assert(self@.cells =~= old(self)@.lay(draws@).cells);
    }

    /// Takes back a losing move: every exploded cell is concealed again and
    /// keeps its content, and every other cell stays as it is.
    pub fn clear_explosions(&mut self)
        requires
            old(self).wf(),
        ensures
            final(self).wf(),
            final(self)@ == old(self)@.clear_explosions(),
            !final(self)@.has_explosion(),
            old(self)@.flooded() ==> final(self)@.flooded(),
    {
        proof {
            lemma_clear_explosions_clears(self@);
            if self@.flooded() {
                lemma_clear_explosions_keeps_flooded(self@);
            }
        }
        let len = self.storage.len();
        let mut i: usize = 0;
        while i < len
            invariant
                self.wf(),
                self@.same_shape(old(self)@),
                len == self@.cells.len(),
                i <= len,
                forall|j: int| 0 <= j < i ==> self@.cells[j] == old(self)@.cells[j].unexploded(),
                forall|j: int| i <= j < len ==> self@.cells[j] == old(self)@.cells[j],
            decreases len - i,
        {
            self.storage[i] = self.storage[i].concealed_again();
            i += 1;
        }
        assert(self@.cells =~= old(self)@.clear_explosions().cells);
    }

    /// Every coordinate of the board, row after row.
    pub fn iter_pos(&self) -> (all: Vec<GridPos>)
        requires
            self.wf(),
        ensures
            all@ == self@.positions(),
    {
        let len = self.storage.len();
        let mut all: Vec<GridPos> = Vec::new();
        let mut i: usize = 0;
        while i < len
            invariant
                self.wf(),
                len == self@.cells.len(),
                i <= len,
                all@.len() == i,
                forall|j: int| 0 <= j < i ==> all@[j] == self@.pos_of(j),
            decreases len - i,
        {
            all.push(GridPos { row: i / self.width, col: i % self.width });
            i += 1;
        }
        assert(all@ =~= self@.positions());
        all
    }

    /// The cell one row up, if there is one.
    pub fn above(&self, pos: GridPos) -> (r: Option<GridPos>)
        requires
            self.wf(),
            self@.contains(pos),
        ensures
            r == self@.above(pos),
    {
        if pos.row > 0 {
            Some(GridPos { row: pos.row - 1, col: pos.col })
        } else if self.torus {
            Some(GridPos { row: self.height - 1, col: pos.col })
        } else {
            None
        }
    }

    /// The cell one row down, if there is one.
    pub fn below(&self, pos: GridPos) -> (r: Option<GridPos>)
        requires
            self.wf(),
            self@.contains(pos),
        ensures
            r == self@.below(pos),
    {
        if pos.row < self.height - 1 {
            Some(GridPos { row: pos.row + 1, col: pos.col })
        } else if self.torus {
            Some(GridPos { row: 0, col: pos.col })
        } else {
            None
        }
    }

    /// The cell one column to the left, if there is one.
    pub fn left(&self, pos: GridPos) -> (r: Option<GridPos>)
        requires
            self.wf(),
            self@.contains(pos),
        ensures
            r == self@.left(pos),
    {
        if pos.col > 0 {
            Some(GridPos { row: pos.row, col: pos.col - 1 })
        } else if self.torus {
            Some(GridPos { row: pos.row, col: self.width - 1 })
        } else {
            None
        }
    }

    /// The cell one column to the right, if there is one.
    pub fn right(&self, pos: GridPos) -> (r: Option<GridPos>)
        requires
            self.wf(),
            self@.contains(pos),
        ensures
            r == self@.right(pos),
    {
        if pos.col < self.width - 1 {
            Some(GridPos { row: pos.row, col: pos.col + 1 })
        } else if self.torus {
            Some(GridPos { row: pos.row, col: 0 })
        } else {
            None
        }
    }

    /// The eight neighbours of `pos`: above, below, left, right, then the
    /// diagonals. On a bounded board a neighbour beyond the edge is `None`;
    /// on a torus all eight exist.
    pub fn neighbors(&self, pos: GridPos) -> (around: [Option<GridPos>; 8])
        requires
            self.wf(),
            self@.contains(pos),
        ensures
            around@ == self@.neighbors(pos),
    {
        let above = self.above(pos);
        let below = self.below(pos);
        let left = self.left(pos);
        let right = self.right(pos);
        proof {
            lemma_step_in_bounds(self@, pos);
        }
        let above_left = match above {
            Some(p) => self.left(p),
            None => None,
        };
        let above_right = match above {
            Some(p) => self.right(p),
            None => None,
        };
        let below_left = match below {
            Some(p) => self.left(p),
            None => None,
        };
        let below_right = match below {
            Some(p) => self.right(p),
            None => None,
        };
        let around = [
            above,
            below,
            left,
            right,
            above_left,
            above_right,
            below_left,
            below_right,
        ];
        assert(around@ =~= self@.neighbors(pos));
        around
    }

    /// The number of unflagged mines beside `pos`.
    pub fn n_bombs(&self, pos: GridPos) -> (count: usize)
        requires
            self.wf(),
            self@.contains(pos),
        ensures
            count == self@.n_bombs(pos),
            count <= NEIGHBOR_COUNT,
    {
        let around = self.neighbors(pos);
        let mut count: usize = 0;
        let mut k: usize = 0;
        while k < NEIGHBOR_COUNT
            invariant
                self.wf(),
                self@.contains(pos),
                around@ == self@.neighbors(pos),
                k <= NEIGHBOR_COUNT,
                count <= k,
                count == self@.mines_among(pos, k as int),
            decreases NEIGHBOR_COUNT - k,
        {
            proof {
                lemma_neighbor_in_bounds(self@, pos, k as int);
            }
            assert(around@[k as int] == self@.neighbor(pos, k as int));
            if let Some(q) = around[k] {
                if self.get(q).holds_mine() {
                    count += 1;
                }
            }
            k += 1;
        }
        count
    }

    /// Whether every cell is opened or flagged.
    pub fn is_win(&self) -> (won: bool)
        requires
            self.wf(),
        ensures
            won == self@.is_win(),
            !self@.has_explosion() ==> (won <==> !self@.has_secret()),
    {
        proof {
            lemma_win_leaves_nothing_secret(self@);
        }
        let len = self.storage.len();
        let mut i: usize = 0;
        while i < len
            invariant
                self.wf(),
                len == self@.cells.len(),
                i <= len,
                forall|j: int| 0 <= j < i ==> (#[trigger] self@.cells[j]).is_cleared(),
            decreases len - i,
        {
            if !self.storage[i].cleared() {
                proof {
                    lemma_pos_of_index(self@, i as int);
                    let p = self@.pos_of(i as int);
                    assert(!self@.cell(p).is_cleared());
                }
                return false;
            }
            i += 1;
        }
        proof {
            assert forall|p: GridPos| self@.contains(p) implies (#[trigger] self@.cell(
                p,
            )).is_cleared() by {
                lemma_index_in_range(self@, p);
            }
        }
        true
    }

    /// Whether some cell records a losing move.
    pub fn has_explosion(&self) -> (lost: bool)
        requires
            self.wf(),
        ensures
            lost == self@.has_explosion(),
    {
        let len = self.storage.len();
        let mut i: usize = 0;
        while i < len
            invariant
                self.wf(),
                len == self@.cells.len(),
                i <= len,
                forall|j: int| 0 <= j < i ==> !(#[trigger] self@.cells[j]).is_exploded(),
            decreases len - i,
        {
            if self.storage[i].exploded() {
                proof {
                    lemma_pos_of_index(self@, i as int);
                    let p = self@.pos_of(i as int);
                    assert(self@.contains(p) && self@.cell(p).is_exploded());
                }
                return true;
            }
            i += 1;
        }
        proof {
            assert forall|p: GridPos| self@.contains(p) implies !(#[trigger] self@.cell(
                p,
            )).is_exploded() by {
                lemma_index_in_range(self@, p);
            }
        }
        false
    }
}

} // verus!
