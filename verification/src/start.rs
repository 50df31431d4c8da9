//! Starting a game: the mines are laid at random, and one cell without a
//! mine beside it is opened so that the player has somewhere to begin.

use vstd::prelude::*;
use rand::Rng;
use crate::board::{
    lemma_dims_fit, lemma_index_in_range, lemma_neighbor_in_bounds, lemma_pos_of_index,
    lemma_put_cell, Board, GridPos, FRACTION_SCALE, NEIGHBOR_COUNT,
};
use crate::cell::CellState;
use crate::flood::lemma_can_move;
use crate::grid::{blank_board, config_error, ConfigError, Grid};
use crate::laws::{
    lemma_concealed_board, lemma_start, lemma_start_field, lemma_start_without_mines,
};

verus! {

impl Board {
    /// The cell at `pos` is a zero cell: concealed, safe, and with no
    /// unflagged mine beside it.
    pub open spec fn is_zero_cell(self, pos: GridPos) -> bool {
        self.contains(pos) && self.cell(pos) == CellState::SecretSafe && self.n_bombs(pos) == 0
    }

    /// The test for a zero cell, as a function of the coordinate.
    pub open spec fn zero_cell_test(self) -> spec_fn(GridPos) -> bool {
        |p: GridPos| self.is_zero_cell(p)
    }

    /// The zero cells of the board, row after row.
    pub open spec fn zero_positions(self) -> Seq<GridPos> {
        self.positions().filter(self.zero_cell_test())
    }

    /// `q` is the cell at `pos` or one of its neighbours.
    pub open spec fn around(self, pos: GridPos, q: GridPos) -> bool {
        q == pos || self.adjacent(pos, q)
    }

    /// The board with the cell at `pos` and all its neighbours made
    /// concealed and safe, whatever they held.
    pub open spec fn clear_around(self, pos: GridPos) -> Board {
        Board {
            cells: Seq::new(
                self.cells.len(),
                |i: int|
                    if self.around(pos, self.pos_of(i)) {
                        CellState::SecretSafe
                    } else {
                        self.cells[i]
                    },
            ),
            ..self
        }
    }

    /// `draws` and `pick` are a possible outcome of the random choices of a
    /// start: one draw below the scale for each cell, and a first cell to
    /// open, which is one of the zero cells of the laid field where it has
    /// any, and any cell of the board where it has none.
    pub open spec fn is_start_choice(self, draws: Seq<u64>, pick: GridPos) -> bool {
        &&& draws.len() == self.cells.len()
        &&& forall|i: int| 0 <= i < draws.len() ==> draws[i] < FRACTION_SCALE
        &&& if self.lay(draws).zero_positions().len() > 0 {
            self.lay(draws).zero_positions().contains(pick)
        } else {
            self.contains(pick)
        }
    }

    /// The concealed field of a start with the outcome `draws` and `pick`:
    /// the mines are laid by `draws`, and where that leaves no zero cell,
    /// `pick` and its neighbours are made safe.
    pub open spec fn start_field(self, draws: Seq<u64>, pick: GridPos) -> Board {
        let field = self.lay(draws);
        if field.zero_positions().len() > 0 {
            field
        } else {
            field.clear_around(pick)
        }
    }

    /// The board that a start with the outcome `draws` and `pick` leaves: the
    /// concealed field with the cell at `pick` opened.
    pub open spec fn start_at(self, draws: Seq<u64>, pick: GridPos) -> Board {
        self.start_field(draws, pick).open(pick)
    }

    /// The board looks like one right after a start: some opened cell has
    /// no mine beside it, every cell is concealed or opened, and the reveal
    /// is complete.
    pub open spec fn freshly_started(self) -> bool {
        &&& exists|pick: GridPos|
            self.contains(pick) && #[trigger] self.cell(pick) == CellState::Opened && self.n_bombs(
                pick,
            ) == 0
        &&& forall|p: GridPos|
            self.contains(p) ==> (#[trigger] self.cell(p)).is_secret() || self.cell(p)
                == CellState::Opened
        &&& self.flooded()
    }

    /// The board is one that a start on `from` can leave.
    pub open spec fn started_from(self, from: Board) -> bool {
        exists|draws: Seq<u64>, pick: GridPos| #[trigger]
            from.is_start_choice(draws, pick) && self == from.start_at(draws, pick)
    }
}

/// The first `k` neighbours of `pos` include `q`, or `q` is `pos` itself.
spec fn cleared_so_far(b: Board, pos: GridPos, q: GridPos, k: int) -> bool {
    q == pos || exists|i: int| 0 <= i < k && #[trigger] b.neighbor(pos, i) == Some(q)
}

/// The members of the sequence of zero positions are the zero cells of the
/// board.
pub proof fn lemma_zero_positions(b: Board, p: GridPos)
    requires
        b.wf(),
    ensures
        b.zero_positions().contains(p) <==> b.is_zero_cell(p),
{
    let all = b.positions();
    let test = b.zero_cell_test();
    if b.zero_positions().contains(p) {
        let i = choose|i: int| 0 <= i < all.filter(test).len() && all.filter(test)[i] == p;
        all.lemma_filter_pred(test, i);
    }
    if b.is_zero_cell(p) {
        lemma_index_in_range(b, p);
        assert(all[b.index_of(p)] == p);
        all.lemma_filter_contains(test, b.index_of(p));
    }
}

/// A laid field has every cell concealed.
pub proof fn lemma_lay_is_concealed(b: Board, draws: Seq<u64>, p: GridPos)
    requires
        b.wf(),
        b.contains(p),
    ensures
        b.lay(draws).wf(),
        b.lay(draws).same_shape(b),
        b.lay(draws).cell(p).is_secret(),
{
    lemma_index_in_range(b, p);
}

/// Reading a cell after a cell and its neighbours were made safe.
pub proof fn lemma_clear_around_cell(b: Board, pos: GridPos, q: GridPos)
    requires
        b.wf(),
        b.contains(q),
    ensures
        b.clear_around(pos).wf(),
        b.clear_around(pos).same_shape(b),
        b.clear_around(pos).cell(q) == (if b.around(pos, q) {
            CellState::SecretSafe
        } else {
            b.cell(q)
        }),
{
    lemma_index_in_range(b, q);
}

/// Draws a number at random from those below `bound`.
///
/// The call is `rand::Rng::gen_range` with the range `0..bound`, on the
/// generator that `rand::thread_rng` gives the running thread. The contract
/// is taken on trust. It says of the result only that it lies in the range
/// asked for, which holds of every outcome; that the draws are uniform and
/// independent is not stated. The call panics on an empty range, so `bound`
/// has to be positive.
#[verifier::external_body]
fn random_below(bound: u64) -> (r: u64)
    requires
        bound > 0,
    ensures
        r < bound,
{
    rand::thread_rng().gen_range(0..bound)
}

impl Grid {
    /// The zero cells of the board, row after row.
    pub fn zero_positions(&self) -> (zeros: Vec<GridPos>)
        requires
            self.wf(),
        ensures
            zeros@ == self@.zero_positions(),
    {
        let all = self.iter_pos();
        let mut zeros: Vec<GridPos> = Vec::new();
        let mut i: usize = 0;
        assert(all@.take(0) =~= Seq::<GridPos>::empty());
        assert(Seq::<GridPos>::empty().filter(self@.zero_cell_test()) =~= Seq::<GridPos>::empty()) by {
            reveal(Seq::filter);
        }
        while i < all.len()
            invariant
                self.wf(),
                all@ == self@.positions(),
                i <= all@.len(),
                zeros@ == all@.take(i as int).filter(self@.zero_cell_test()),
            decreases all@.len() - i,
        {
            let pos = all[i];
            proof {
                lemma_pos_of_index(self@, i as int);
                let shorter = all@.take(i as int);
                let longer = all@.take(i + 1);
                assert(longer.drop_last() =~= shorter);
                assert(longer.last() == pos);
                reveal(Seq::filter);
            }
            if self.get(pos) == CellState::SecretSafe && self.n_bombs(pos) == 0 {
                zeros.push(pos);
            }
            i += 1;
        }
        assert(all@.take(all@.len() as int) =~= all@);
        zeros
    }

    /// Makes the cell at `pos` and all its neighbours concealed and safe,
    /// whatever they held.
    pub fn clear_around(&mut self, pos: GridPos)
        requires
            old(self).wf(),
            old(self)@.contains(pos),
        ensures
            final(self).wf(),
            final(self)@ == old(self)@.clear_around(pos),
    {
        let ghost start = self@;
        let around = self.neighbors(pos);
        proof {
            assert forall|q: GridPos| start.contains(q) implies #[trigger] start.put(
                pos,
                CellState::SecretSafe,
            ).cell(q) == (if cleared_so_far(start, pos, q, 0) {
                CellState::SecretSafe
            } else {
                start.cell(q)
            }) by {
                lemma_put_cell(start, pos, CellState::SecretSafe, q);
            }
            lemma_put_cell(start, pos, CellState::SecretSafe, pos);
        }
        self.set(pos, CellState::SecretSafe);
        let mut k: usize = 0;
        while k < NEIGHBOR_COUNT
            invariant
                start.wf(),
                start.contains(pos),
                self.wf(),
                self@.same_shape(start),
                around@ == start.neighbors(pos),
                k <= NEIGHBOR_COUNT,
                forall|q: GridPos|
                    start.contains(q) ==> #[trigger] self@.cell(q) == (if cleared_so_far(
                        start,
                        pos,
                        q,
                        k as int,
                    ) {
                        CellState::SecretSafe
                    } else {
                        start.cell(q)
                    }),
            decreases NEIGHBOR_COUNT - k,
        {
            assert(around@[k as int] == start.neighbor(pos, k as int));
            proof {
                lemma_neighbor_in_bounds(start, pos, k as int);
            }
            let ghost stage = self@;
            if let Some(n) = around[k] {
                self.set(n, CellState::SecretSafe);
            }
            proof {
                assert forall|q: GridPos| start.contains(q) implies #[trigger] self@.cell(q) == (
                if cleared_so_far(start, pos, q, k + 1) {
                    CellState::SecretSafe
                } else {
                    start.cell(q)
                }) by {
                    if let Some(n) = start.neighbor(pos, k as int) {
                        lemma_put_cell(stage, n, CellState::SecretSafe, q);
                    }
                    if cleared_so_far(start, pos, q, k as int) {
                        assert(cleared_so_far(start, pos, q, k + 1));
                    }
                    if cleared_so_far(start, pos, q, k + 1) && !cleared_so_far(
                        start,
                        pos,
                        q,
                        k as int,
                    ) {
                        let i = choose|i: int|
                            0 <= i < k + 1 && #[trigger] start.neighbor(pos, i) == Some(q);
                        assert(i == k);
                    }
                }
            }
            k += 1;
        }
        proof {
            let cleared = start.clear_around(pos);
            assert forall|i: int| 0 <= i < start.cells.len() implies self@.cells[i]
                == cleared.cells[i] by {
                lemma_pos_of_index(start, i);
                let q = start.pos_of(i);
                assert(self@.cell(q) == self@.cells[i]);
                assert(cleared_so_far(start, pos, q, NEIGHBOR_COUNT as int) == start.around(
                    pos,
                    q,
                ));
            }
            assert(self@.cells =~= cleared.cells);
        }
    }

    /// Starts a game on this grid, whatever it held: lays the mines at
    /// random, each cell on its own with the chance that the mine fraction
    /// gives, and opens one zero cell chosen at random. Where the field has
    /// no zero cell, a cell chosen at random and its neighbours are made
    /// safe first, and that cell is opened.
    pub fn start(&mut self)
        requires
            old(self).wf(),
        ensures
            final(self).wf(),
            final(self)@.same_shape(old(self)@),
            final(self)@.started_from(old(self)@),
            final(self)@.freshly_started(),
            !final(self)@.has_explosion(),
            old(self)@.fraction == 0 ==> final(self)@.is_win(),
    {
        let ghost from = self@;
        let len = self.cell_count();
        let mut draws: Vec<u64> = Vec::new();
        let mut i: usize = 0;
        while i < len
            invariant
                i <= len,
                draws@.len() == i,
                forall|j: int| 0 <= j < i ==> draws@[j] < FRACTION_SCALE,
            decreases len - i,
        {
            let draw = random_below(FRACTION_SCALE);
            draws.push(draw);
            i += 1;
        }
        self.lay_mines(&draws);
        let ghost field = self@;
        let zero_positions = self.zero_positions();
        let pos = if zero_positions.len() > 0 {
            let index = random_below(zero_positions.len() as u64) as usize;
            zero_positions[index]
        } else {
            proof {
                lemma_dims_fit(field);
            }
            let row = random_below(self.height() as u64) as usize;
            let col = random_below(self.width() as u64) as usize;
            let pos = GridPos { row, col };
            self.clear_around(pos);
            pos
        };
        proof {
            assert(from.is_start_choice(draws@, pos));
            lemma_start_field(from, draws@, pos);
            lemma_concealed_board(self@);
            lemma_can_move(self@, pos);
        }
        let exploded = self.open(pos);
        assert(!exploded);
        proof {
            lemma_start(from, draws@, pos);
            if from.fraction == 0 {
                lemma_start_without_mines(from, draws@, pos);
            }
        }
    }

    /// A grid of the given configuration with a game started on it, or the
    /// first fault of the configuration.
    pub fn new(height: usize, width: usize, fraction: u64, torus: bool) -> (r: Result<
        Grid,
        ConfigError,
    >)
        ensures
            match config_error(height, width, fraction) {
                Some(e) => r == Err::<Grid, ConfigError>(e),
                None => {
                    &&& r is Ok
                    &&& r->Ok_0.wf()
                    &&& r->Ok_0@.same_shape(blank_board(height, width, fraction, torus))
                    &&& r->Ok_0@.started_from(blank_board(height, width, fraction, torus))
                    &&& r->Ok_0@.freshly_started()
                    &&& !r->Ok_0@.has_explosion()
                    &&& fraction == 0 ==> r->Ok_0@.is_win()
                },
            },
    {
        match Grid::blank(height, width, fraction, torus) {
            Err(e) => Err(e),
            Ok(mut grid) => {
                grid.start();
                Ok(grid)
            },
        }
    }
}

} // verus!
