//! The game around the board: its status, the moves of the player as the
//! status allows them, restart and undo.

use vstd::prelude::*;
use crate::board::{Board, GridPos};
use crate::cell::CellState;
use crate::flood::lemma_can_move;
use crate::grid::{Grid, Topology};
use crate::laws::{lemma_clear_explosions_clears, lemma_move_cell, lemma_move_explosion};

verus! {

/// How the game stands.
#[derive(Clone, Copy, PartialEq, Eq, Structural, Debug)]
pub enum GameOver {
    /// The player opened a mine or flagged a safe cell.
    Loss,
    /// Every cell is opened or flagged.
    Win,
    /// The game goes on.
    Ongoing,
}

/// The button of a click on the board.
#[derive(Clone, Copy, PartialEq, Eq, Structural, Debug)]
pub enum Button {
    /// Flags the cell under the pointer.
    Left,
    /// Opens the cell under the pointer.
    Right,
    /// Any other button: no move.
    Other,
}

/// The abstract value of the game.
pub struct Game {
    pub board: Board,
    pub status: GameOver,
    /// Whether a losing move can be taken back.
    pub easy_mode: bool,
}

impl Game {
    /// The board is well formed, the game is lost exactly when a cell has
    /// exploded, and it is won only when every cell is opened or flagged.
    pub open spec fn wf(self) -> bool {
        &&& self.board.wf()
        &&& self.status == GameOver::Loss <==> self.board.has_explosion()
        &&& self.status == GameOver::Win ==> self.board.is_win()
    }

    /// The status after a move of a game that was going on: lost where the
    /// move exploded, won where it left every cell opened or flagged.
    pub open spec fn settle(board: Board, exploded: bool) -> GameOver {
        if exploded {
            GameOver::Loss
        } else if board.is_win() {
            GameOver::Win
        } else {
            GameOver::Ongoing
        }
    }

    /// Opening the cell at `pos` loses the game: the game goes on and a
    /// concealed mine lies there.
    pub open spec fn open_explodes(self, pos: GridPos) -> bool {
        self.status == GameOver::Ongoing && self.board.contains(pos) && self.board.cell(pos)
            == CellState::SecretBomb
    }

    /// Flagging the cell at `pos` loses the game: the game goes on and a
    /// concealed safe cell lies there.
    pub open spec fn flag_explodes(self, pos: GridPos) -> bool {
        self.status == GameOver::Ongoing && self.board.contains(pos) && self.board.cell(pos)
            == CellState::SecretSafe
    }

    /// The game after the player asks to open the cell at `pos`. A game
    /// that is over stays as it is. In a game that goes on, the cell is
    /// opened if it lies on the board, and the status is settled.
    pub open spec fn open(self, pos: GridPos) -> Game {
        if self.status != GameOver::Ongoing {
            self
        } else {
            let board = if self.board.contains(pos) {
                self.board.open(pos)
            } else {
                self.board
            };
            Game { board, status: Game::settle(board, self.open_explodes(pos)), ..self }
        }
    }

    /// The game after the player asks to flag the cell at `pos`. A game
    /// that is over stays as it is. In a game that goes on, the cell is
    /// flagged if it lies on the board, and the status is settled.
    pub open spec fn flag(self, pos: GridPos) -> Game {
        if self.status != GameOver::Ongoing {
            self
        } else {
            let board = if self.board.contains(pos) {
                self.board.flag(pos)
            } else {
                self.board
            };
            Game { board, status: Game::settle(board, self.flag_explodes(pos)), ..self }
        }
    }

    /// The game after a click: the left button flags the cell under the
    /// pointer and the right button opens it. A click beside the board or
    /// with another button makes no move; in a game that goes on, the
    /// status is settled all the same.
    pub open spec fn click(self, button: Button, target: Option<GridPos>) -> Game {
        match (button, target) {
            (Button::Left, Some(pos)) => self.flag(pos),
            (Button::Right, Some(pos)) => self.open(pos),
            _ => if self.status != GameOver::Ongoing {
                self
            } else {
                Game { status: Game::settle(self.board, false), ..self }
            },
        }
    }

    /// The game after the player asks to take back the losing move: in easy
    /// mode a lost game goes on with the exploded cells concealed again;
    /// any other game stays as it is.
    pub open spec fn clear_explosions(self) -> Game {
        if self.easy_mode && self.status == GameOver::Loss {
            Game { board: self.board.clear_explosions(), status: GameOver::Ongoing, ..self }
        } else {
            self
        }
    }

    /// The game is one that a restart of `from` can leave: a fresh start on
    /// the same board shape, going on, in the same mode.
    pub open spec fn restarted_from(self, from: Game) -> bool {
        &&& self.board.started_from(from.board)
        &&& self.status == GameOver::Ongoing
        &&& self.easy_mode == from.easy_mode
    }

    /// The words for the player: an offer to undo or to try again after a
    /// loss, congratulations after a win, and good wishes meanwhile.
    pub open spec fn status_text(self) -> &'static str {
        match self.status {
            GameOver::Loss => if self.easy_mode {
                "Undo?"
            } else {
                "Try again?"
            },
            GameOver::Win => "You win!",
            GameOver::Ongoing => "Good luck!",
        }
    }
}

/// A game that is over takes no move: whatever the player clicks, the game
/// stays as it is. Only a restart, or the undo of a lost game in easy mode,
/// lets it go on.
pub proof fn lemma_finished_game_stays(g: Game, pos: GridPos, button: Button, target: Option<GridPos>)
    requires
        g.status != GameOver::Ongoing,
    ensures
        g.open(pos) == g,
        g.flag(pos) == g,
        g.click(button, target) == g,
        !(g.easy_mode && g.status == GameOver::Loss) ==> g.clear_explosions() == g,
{
}

/// The moves keep the game well formed, and they change the status of a
/// game that goes on only to what the board shows: lost where the move
/// exploded, won where every cell is opened or flagged.
pub proof fn lemma_moves_keep_game_wf(g: Game, pos: GridPos, button: Button, target: Option<GridPos>)
    requires
        g.wf(),
    ensures
        g.open(pos).wf(),
        g.flag(pos).wf(),
        g.click(button, target).wf(),
        g.clear_explosions().wf(),
        g.open(pos).status == GameOver::Loss <==> g.status == GameOver::Loss || g.open_explodes(
            pos,
        ),
        g.flag(pos).status == GameOver::Loss <==> g.status == GameOver::Loss || g.flag_explodes(
            pos,
        ),
        g.clear_explosions().status != GameOver::Loss <==> g.status != GameOver::Loss
            || g.easy_mode,
{
    if g.status == GameOver::Ongoing {
        if g.board.contains(pos) {
            lemma_move_explosion(g.board, pos);
            lemma_move_cell(g.board, pos, pos);
        }
        if let Some(p) = target {
            if g.board.contains(p) {
                lemma_move_explosion(g.board, p);
                lemma_move_cell(g.board, p, p);
            }
        }
    }
    lemma_clear_explosions_clears(g.board);
}

/// A game of minesweeper: the grid, how the game stands, and whether a
/// losing move can be taken back.
#[derive(Clone, PartialEq, Eq, Debug)]
pub struct AppData {
    grid: Grid,
    game_over: GameOver,
    easy_mode: bool,
}

impl View for AppData {
    type V = Game;

    closed spec fn view(&self) -> Game {
        Game { board: self.grid@, status: self.game_over, easy_mode: self.easy_mode }
    }
}

impl AppData {
    /// The game is well formed.
    pub open spec fn wf(&self) -> bool {
        self@.wf()
    }

    /// A game on `grid`. It is lost if a cell of the grid has exploded, and
    /// goes on if none has.
    pub fn new(grid: Grid, easy_mode: bool) -> (data: AppData)
        requires
            grid.wf(),
        ensures
            data.wf(),
            data@.board == grid@,
            data@.easy_mode == easy_mode,
            data@.status == (if grid@.has_explosion() {
                GameOver::Loss
            } else {
                GameOver::Ongoing
            }),
    {
        let game_over = if grid.has_explosion() {
            GameOver::Loss
        } else {
            GameOver::Ongoing
        };
        AppData { grid, game_over, easy_mode }
    }

    /// How the game stands.
    pub fn status(&self) -> (s: GameOver)
        ensures
            s == self@.status,
    {
        self.game_over
    }

    /// Whether a losing move can be taken back.
    pub fn easy_mode(&self) -> (e: bool)
        ensures
            e == self@.easy_mode,
    {
        self.easy_mode
    }

    /// The grid of the game.
    pub fn grid(&self) -> (g: &Grid)
        ensures
            g@ == self@.board,
    {
        &self.grid
    }

    /// The number of rows and the number of columns.
    pub fn dimensions(&self) -> (d: (usize, usize))
        ensures
            d.0 == self@.board.height,
            d.1 == self@.board.width,
    {
        (self.grid.height(), self.grid.width())
    }

    /// Whether the edges of the board are joined.
    pub fn topology(&self) -> (t: Topology)
        ensures
            t == (if self@.board.torus {
                Topology::Torus
            } else {
                Topology::Bounded
            }),
    {
        self.grid.topology()
    }

    /// The state of the cell at `pos`.
    pub fn cell_state(&self, pos: GridPos) -> (state: CellState)
        requires
            self.wf(),
            self@.board.contains(pos),
        ensures
            state == self@.board.cell(pos),
    {
        self.grid.get(pos)
    }

    /// The number of unflagged mines beside `pos`.
    pub fn adjacent_mine_count(&self, pos: GridPos) -> (count: usize)
        requires
            self.wf(),
            self@.board.contains(pos),
        ensures
            count == self@.board.n_bombs(pos),
            count <= 8,
    {
        self.grid.n_bombs(pos)
    }

    /// The words for the player on how the game stands.
    pub fn status_text(&self) -> (text: &'static str)
        ensures
            text == self@.status_text(),
    {
        match self.game_over {
            GameOver::Loss => if self.easy_mode {
                "Undo?"
            } else {
                "Try again?"
            },
            GameOver::Win => "You win!",
            GameOver::Ongoing => "Good luck!",
        }
    }

    /// Settles the status after a move of a game that was going on.
    fn settle(&mut self, exploded: bool)
        requires
            old(self)@.board.wf(),
            exploded <==> old(self)@.board.has_explosion(),
        ensures
            final(self).wf(),
            final(self)@ == (Game {
                status: Game::settle(old(self)@.board, exploded),
                ..old(self)@
            }),
    {
        if exploded {
            self.game_over = GameOver::Loss;
        } else if self.grid.is_win() {
            self.game_over = GameOver::Win;
        } else {
            self.game_over = GameOver::Ongoing;
        }
    }

    /// The player asks to open the cell at `pos`. Nothing happens in a game
    /// that is over, nor to a cell beside the board. The result says whether
    /// the move lost the game.
    pub fn open(&mut self, pos: GridPos) -> (exploded: bool)
        requires
            old(self).wf(),
        ensures
            final(self).wf(),
            final(self)@ == old(self)@.open(pos),
            exploded == old(self)@.open_explodes(pos),
            !old(self)@.board.cell(pos).is_secret() ==> final(self)@.board == old(self)@.board
                && !exploded,
            old(self)@.board.flooded() ==> final(self)@.board.flooded(),
    {
        if self.game_over != GameOver::Ongoing {
            return false;
        }
        let exploded = if self.grid.contains(pos) {
            proof {
                lemma_move_explosion(self@.board, pos);
                lemma_can_move(self@.board, pos);
            }
            self.grid.open(pos)
        } else {
            false
        };
        self.settle(exploded);
        exploded
    }

    /// The player asks to flag the cell at `pos` as a mine. Nothing happens
    /// in a game that is over, nor to a cell beside the board. The result
    /// says whether the move lost the game.
    pub fn flag(&mut self, pos: GridPos) -> (exploded: bool)
        requires
            old(self).wf(),
        ensures
            final(self).wf(),
            final(self)@ == old(self)@.flag(pos),
            exploded == old(self)@.flag_explodes(pos),
            !old(self)@.board.cell(pos).is_secret() ==> final(self)@.board == old(self)@.board
                && !exploded,
            old(self)@.board.flooded() ==> final(self)@.board.flooded(),
    {
        if self.game_over != GameOver::Ongoing {
            return false;
        }
        let exploded = if self.grid.contains(pos) {
            proof {
                lemma_move_explosion(self@.board, pos);
                lemma_can_move(self@.board, pos);
            }
            self.grid.flag(pos)
        } else {
            false
        };
        self.settle(exploded);
        exploded
    }

    /// A click on the board with `button`, on the cell `target` if the
    /// pointer was on one: the left button flags and the right button opens.
    pub fn click(&mut self, button: Button, target: Option<GridPos>)
        requires
            old(self).wf(),
        ensures
            final(self).wf(),
            final(self)@ == old(self)@.click(button, target),
            old(self)@.board.flooded() ==> final(self)@.board.flooded(),
    {
        match (button, target) {
            (Button::Left, Some(pos)) => {
                self.flag(pos);
            },
            (Button::Right, Some(pos)) => {
                self.open(pos);
            },
            _ => {
                if self.game_over == GameOver::Ongoing {
                    self.settle(false);
                }
            },
        }
    }

    /// Starts a new game on the same board shape, whatever the status was.
    pub fn restart(&mut self)
        requires
            old(self).wf(),
        ensures
            final(self).wf(),
            final(self)@.restarted_from(old(self)@),
            final(self)@.board.freshly_started(),
    {
        self.grid.start();
        self.game_over = GameOver::Ongoing;
    }

    /// The player asks to take back the losing move. In easy mode a lost
    /// game goes on, with the exploded cells concealed again and the mines
    /// where they were. Otherwise nothing happens.
    pub fn clear_explosions(&mut self)
        requires
            old(self).wf(),
        ensures
            final(self).wf(),
            final(self)@ == old(self)@.clear_explosions(),
            old(self)@.board.flooded() ==> final(self)@.board.flooded(),
    {
        if self.easy_mode && self.game_over == GameOver::Loss {
            self.grid.clear_explosions();
            self.game_over = GameOver::Ongoing;
        }
    }
}

} // verus!
