//! What a view of the board shows: the rows and columns of the picture,
//! which on a torus repeats a few of them past the far edges, the cell
//! behind each place of the picture, and the face of a cell.

use vstd::prelude::*;
use crate::board::{lemma_dims_fit, Board, GridPos};
use crate::cell::CellState;
use crate::grid::{Grid, Topology};

verus! {

/// The number of rows and columns that the picture of a torus repeats past
/// the far edges, so that the player sees the cells joined there.
pub const TORUS_OVERLAP: usize = 3;

/// How the ground of a cell is painted.
#[derive(Clone, Copy, PartialEq, Eq, Structural, Debug)]
pub enum Fill {
    /// A concealed cell.
    Hidden,
    /// A flagged mine.
    Flagged,
    /// An opened cell.
    Opened,
    /// An exploded cell.
    Exploded,
}

/// What the picture shows of one cell.
#[derive(Clone, Copy, PartialEq, Eq, Structural, Debug)]
pub struct CellFace {
    /// The ground of the cell.
    pub fill: Fill,
    /// The number written on the cell: its mine count where the cell is
    /// opened and the count is not zero.
    pub number: Option<usize>,
}

impl CellState {
    /// The ground that a cell in this state is painted with. Concealed
    /// cells look alike, with or without a mine, and so do exploded ones.
    pub open spec fn fill(self) -> Fill {
        match self {
            CellState::SecretSafe | CellState::SecretBomb => Fill::Hidden,
            CellState::Flagged => Fill::Flagged,
            CellState::Opened => Fill::Opened,
            CellState::ExplodedSafe | CellState::ExplodedBomb => Fill::Exploded,
        }
    }

    /// The ground that a cell in this state is painted with.
    pub fn ground(self) -> (fill: Fill)
        ensures
            fill == self.fill(),
    {
        match self {
            CellState::SecretSafe | CellState::SecretBomb => Fill::Hidden,
            CellState::Flagged => Fill::Flagged,
            CellState::Opened => Fill::Opened,
            CellState::ExplodedSafe | CellState::ExplodedBomb => Fill::Exploded,
        }
    }
}

impl Board {
    /// The number of rows or columns of the picture along an axis of
    /// `extent` cells: on a torus the overlap is added.
    pub open spec fn visual_extent(self, extent: nat) -> nat {
        if self.torus {
            extent + TORUS_OVERLAP as nat
        } else {
            extent
        }
    }

    /// The cell behind the place `(row, col)` of the picture. A place on the
    /// board is its own cell. On a torus a place within the overlap past the
    /// far edges is the cell that the wrap leads to. Any other place has no
    /// cell behind it.
    pub open spec fn visual_pos(self, row: usize, col: usize) -> Option<GridPos> {
        if row < self.height && col < self.width {
            Some(GridPos { row, col })
        } else if self.torus && row < self.height + TORUS_OVERLAP && col < self.width
            + TORUS_OVERLAP {
            Some(
                GridPos {
                    row: (row as int % self.height as int) as usize,
                    col: (col as int % self.width as int) as usize,
                },
            )
        } else {
            None
        }
    }

    /// What the picture shows of the cell at `pos`.
    pub open spec fn face(self, pos: GridPos) -> CellFace {
        CellFace {
            fill: self.cell(pos).fill(),
            number: if self.cell(pos) == CellState::Opened && self.n_bombs(pos) > 0 {
                Some(self.n_bombs(pos) as usize)
            } else {
                None
            },
        }
    }
}

/// Every place of the picture that has a cell behind it has one on the
/// board, and on a torus every place within the picture has one.
pub proof fn lemma_visual_pos(b: Board, row: usize, col: usize)
    requires
        b.wf(),
    ensures
        b.visual_pos(row, col) matches Some(pos) ==> b.contains(pos),
        b.visual_pos(row, col) is Some <==> row < b.visual_extent(b.height) && col
            < b.visual_extent(b.width),
{
    lemma_dims_fit(b);
    vstd::arithmetic::div_mod::lemma_mod_bound(row as int, b.height as int);
    vstd::arithmetic::div_mod::lemma_mod_bound(col as int, b.width as int);
}

impl Grid {
    /// The number of rows of the picture, or the largest number of the
    /// machine where that is less.
    pub fn visual_height(&self) -> (rows: usize)
        requires
            self.wf(),
        ensures
            rows == if self@.visual_extent(self@.height) <= usize::MAX {
                self@.visual_extent(self@.height)
            } else {
                usize::MAX as nat
            },
    {
        if self.topology() == Topology::Torus {
            let height = self.height();
            if height <= usize::MAX - TORUS_OVERLAP {
                height + TORUS_OVERLAP
            } else {
                usize::MAX
            }
        } else {
            self.height()
        }
    }

    /// The number of columns of the picture, or the largest number of the
    /// machine where that is less.
    pub fn visual_width(&self) -> (cols: usize)
        requires
            self.wf(),
        ensures
            cols == if self@.visual_extent(self@.width) <= usize::MAX {
                self@.visual_extent(self@.width)
            } else {
                usize::MAX as nat
            },
    {
        if self.topology() == Topology::Torus {
            let width = self.width();
            if width <= usize::MAX - TORUS_OVERLAP {
                width + TORUS_OVERLAP
            } else {
                usize::MAX
            }
        } else {
            self.width()
        }
    }

    /// The cell behind the place `(row, col)` of the picture, if there is
    /// one.
    pub fn visual_pos(&self, row: usize, col: usize) -> (pos: Option<GridPos>)
        requires
            self.wf(),
        ensures
            pos == self@.visual_pos(row, col),
            pos matches Some(p) ==> self@.contains(p),
    {
        proof {
            lemma_visual_pos(self@, row, col);
        }
        let height = self.height();
        let width = self.width();
        if row < height && col < width {
            Some(GridPos { row, col })
        } else if self.topology() == Topology::Torus && (row < height || row - height
            < TORUS_OVERLAP) && (col < width || col - width < TORUS_OVERLAP) {
            Some(GridPos { row: row % height, col: col % width })
        } else {
            None
        }
    }

    /// What the picture shows of the cell at `pos`.
    pub fn face(&self, pos: GridPos) -> (face: CellFace)
        requires
            self.wf(),
            self@.contains(pos),
        ensures
            face == self@.face(pos),
    {
        let state = self.get(pos);
        let number = if state == CellState::Opened {
            let count = self.n_bombs(pos);
            if count > 0 {
                Some(count)
            } else {
                None
            }
        } else {
            None
        };
        CellFace { fill: state.ground(), number }
    }
}

} // verus!
