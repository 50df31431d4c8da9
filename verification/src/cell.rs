//! The state of one cell of the board.

use vstd::prelude::*;

verus! {

/// What the board knows about one cell.
///
/// A cell is in exactly one of these states. The two `Secret` states are the
/// concealed ones, the two `Exploded` states record the move that lost the
/// game, and `Flagged` and `Opened` are the results of correct moves.
#[derive(Clone, Copy, PartialEq, Eq, Structural, Debug)]
pub enum CellState {
    /// Concealed, holds no mine.
    SecretSafe,
    /// Concealed, holds a mine.
    SecretBomb,
    /// A mine that the player has marked.
    Flagged,
    /// A safe cell that has been revealed.
    Opened,
    /// A safe cell that the player marked as a mine.
    ExplodedSafe,
    /// A mine that the player opened.
    ExplodedBomb,
}

impl CellState {
    /// The cell holds a mine that has not been flagged. These are the cells
    /// that the number shown on an opened neighbour counts.
    pub open spec fn is_mine(self) -> bool {
        self == CellState::SecretBomb || self == CellState::ExplodedBomb
    }

    /// The cell is still concealed.
    pub open spec fn is_secret(self) -> bool {
        self == CellState::SecretSafe || self == CellState::SecretBomb
    }

    /// The cell records a losing move.
    pub open spec fn is_exploded(self) -> bool {
        self == CellState::ExplodedSafe || self == CellState::ExplodedBomb
    }

    /// The cell has been dealt with correctly: opened or flagged.
    pub open spec fn is_cleared(self) -> bool {
        self == CellState::Opened || self == CellState::Flagged
    }

    /// The state that taking back a losing move leaves: an exploded cell is
    /// concealed again, with the content it had, and any other cell stays.
    pub open spec fn unexploded(self) -> CellState {
        match self {
            CellState::ExplodedBomb => CellState::SecretBomb,
            CellState::ExplodedSafe => CellState::SecretSafe,
            other => other,
        }
    }

    /// The state that a draw gives a cell when the mines are laid: a mine
    /// where the draw falls below the mine fraction, a safe cell where not.
    pub open spec fn drawn(draw: u64, fraction: nat) -> CellState {
        if draw < fraction {
            CellState::SecretBomb
        } else {
            CellState::SecretSafe
        }
    }

    /// The concealed state that a draw gives a cell on a board of the given
    /// mine fraction.
    pub fn from_draw(draw: u64, fraction: u64) -> (state: CellState)
        ensures
            state == CellState::drawn(draw, fraction as nat),
    {
        if draw < fraction {
            CellState::SecretBomb
        } else {
            CellState::SecretSafe
        }
    }

    /// The state after a losing move is taken back.
    pub fn concealed_again(self) -> (state: CellState)
        ensures
            state == self.unexploded(),
    {
        match self {
            CellState::ExplodedBomb => CellState::SecretBomb,
            CellState::ExplodedSafe => CellState::SecretSafe,
            other => other,
        }
    }

    /// Whether an unflagged mine is here.
    pub fn holds_mine(self) -> (r: bool)
        ensures
            r == self.is_mine(),
    {
        match self {
            CellState::SecretBomb | CellState::ExplodedBomb => true,
            _ => false,
        }
    }

    /// Whether the cell is opened or flagged.
    pub fn cleared(self) -> (r: bool)
        ensures
            r == self.is_cleared(),
    {
        match self {
            CellState::Opened | CellState::Flagged => true,
            _ => false,
        }
    }

    /// Whether the cell records a losing move.
    pub fn exploded(self) -> (r: bool)
        ensures
            r == self.is_exploded(),
    {
        match self {
            CellState::ExplodedSafe | CellState::ExplodedBomb => true,
            _ => false,
        }
    }
}

} // verus!
