//! The reveal: what the flood from a set of opened cells opens, stated over
//! paths on the board, and the two moves of the player that start it.

use vstd::prelude::*;
use crate::board::{
    lemma_neighbor_in_bounds, lemma_pos_of_index, lemma_index_in_range, lemma_put_cell,
    lemma_same_mines_same_count, lemma_zero_count, Board, GridPos, NEIGHBOR_COUNT,
};
use crate::cell::CellState;

verus! {

impl Board {
    /// The opened cells among the neighbours of `pos`.
    pub open spec fn opened_around(self, pos: GridPos) -> Set<GridPos> {
        Set::new(|q: GridPos| self.adjacent(pos, q) && self.cell(q) == CellState::Opened)
    }

    /// The cells a flood at `pos` starts from: the cell itself where it is
    /// opened, and its opened neighbours where it is flagged.
    pub open spec fn flood_seeds(self, pos: GridPos) -> Set<GridPos> {
        if self.cell(pos) == CellState::Opened {
            set![pos]
        } else if self.cell(pos) == CellState::Flagged {
            self.opened_around(pos)
        } else {
            Set::empty()
        }
    }

    /// The flood goes on from the `i`-th cell of `path` to the next: the mine
    /// count there is zero and the next cell is a neighbour.
    pub open spec fn flood_step(self, path: Seq<GridPos>, i: int) -> bool {
        self.n_bombs(path[i]) == 0 && self.adjacent(path[i], path[i + 1])
    }

    /// `path` is a way the flood takes: it starts at an opened seed, goes
    /// from each cell to a neighbour, leaves a cell only where the mine count
    /// is zero, and after the seed passes over concealed safe cells only.
    pub open spec fn flood_path(self, seeds: Set<GridPos>, path: Seq<GridPos>) -> bool {
        &&& path.len() >= 2
        &&& seeds.contains(path[0])
        &&& self.contains(path[0])
        &&& self.cell(path[0]) == CellState::Opened
        &&& forall|i: int| 0 <= i < path.len() - 1 ==> #[trigger] self.flood_step(path, i)
        &&& forall|i: int|
            #![trigger path[i]]
            1 <= i < path.len() ==> self.cell(path[i]) == CellState::SecretSafe
    }

    /// The flood from `seeds` opens the cell at `q`.
    pub open spec fn flood_reaches(self, seeds: Set<GridPos>, q: GridPos) -> bool {
        exists|path: Seq<GridPos>| #[trigger] self.flood_path(seeds, path) && path.last() == q
    }

    /// The flood from `seeds` spreads from `q`: `q` is an opened seed or a
    /// cell that the flood opens.
    pub open spec fn flood_source(self, seeds: Set<GridPos>, q: GridPos) -> bool {
        ||| self.contains(q) && seeds.contains(q) && self.cell(q) == CellState::Opened
        ||| self.flood_reaches(seeds, q)
    }

    /// The flood from `seeds` never meets a cell marked `ExplodedSafe`
    /// beside a cell of mine count zero that it spreads from.
    pub open spec fn can_flood(self, seeds: Set<GridPos>) -> bool {
        forall|q: GridPos, k: int|
            self.flood_source(seeds, q) && self.n_bombs(q) == 0 && 0 <= k < NEIGHBOR_COUNT ==> (
            #[trigger] self.neighbor(q, k) matches Some(n) ==> self.cell(n)
                != CellState::ExplodedSafe)
    }

    /// The board after the flood from `seeds`: the cells that it reaches are
    /// opened, and every other cell is as before.
    pub open spec fn flood(self, seeds: Set<GridPos>) -> Board {
        Board {
            cells: Seq::new(
                self.cells.len(),
                |i: int|
                    if self.flood_reaches(seeds, self.pos_of(i)) {
                        CellState::Opened
                    } else {
                        self.cells[i]
                    },
            ),
            ..self
        }
    }

    /// No neighbour of `q` is a concealed safe cell.
    pub open spec fn settled(self, q: GridPos) -> bool {
        forall|k: int|
            0 <= k < NEIGHBOR_COUNT ==> (#[trigger] self.neighbor(q, k) matches Some(n)
                ==> self.cell(n) != CellState::SecretSafe)
    }

    /// `self` is a stage of the flood on `start` from `seeds`: the two boards
    /// differ only in cells that the flood reaches, which were concealed and
    /// safe and are opened.
    pub open spec fn flooding(self, start: Board, seeds: Set<GridPos>) -> bool {
        &&& self.same_shape(start)
        &&& forall|q: GridPos|
            #![trigger self.cell(q)]
            start.contains(q) ==> self.cell(q) == start.cell(q) || (start.cell(q)
                == CellState::SecretSafe && self.cell(q) == CellState::Opened
                && start.flood_reaches(seeds, q))
    }

    /// The board after the player opens the cell at `pos`: a concealed mine
    /// explodes, a concealed safe cell is opened and the flood spreads from
    /// it, and any other cell is left as it is.
    pub open spec fn open(self, pos: GridPos) -> Board {
        match self.cell(pos) {
            CellState::SecretBomb => self.put(pos, CellState::ExplodedBomb),
            CellState::SecretSafe => self.put(pos, CellState::Opened).flood(set![pos]),
            _ => self,
        }
    }

    /// The board after the player flags the cell at `pos`: a concealed mine
    /// is flagged and the flood spreads from its opened neighbours, a
    /// concealed safe cell explodes, and any other cell is left as it is.
    pub open spec fn flag(self, pos: GridPos) -> Board {
        match self.cell(pos) {
            CellState::SecretBomb => {
                let flagged = self.put(pos, CellState::Flagged);
                flagged.flood(flagged.opened_around(pos))
            },
            CellState::SecretSafe => self.put(pos, CellState::ExplodedSafe),
            _ => self,
        }
    }

    /// No cell of the board is marked `ExplodedSafe`.
    pub open spec fn free_of_wrong_flags(self) -> bool {
        forall|p: GridPos| self.contains(p) ==> #[trigger] self.cell(p) != CellState::ExplodedSafe
    }

    /// Opening the cell at `pos` starts no flood that meets a cell marked
    /// `ExplodedSafe`.
    pub open spec fn can_open(self, pos: GridPos) -> bool {
        self.cell(pos) == CellState::SecretSafe ==> self.put(pos, CellState::Opened).can_flood(
            set![pos],
        )
    }

    /// Flagging the cell at `pos` starts no flood that meets a cell marked
    /// `ExplodedSafe`.
    pub open spec fn can_flag(self, pos: GridPos) -> bool {
        self.cell(pos) == CellState::SecretBomb ==> self.put(pos, CellState::Flagged).can_flood(
            self.put(pos, CellState::Flagged).opened_around(pos),
        )
    }
}

/// Every cell on a path of the flood lies on the board.
pub proof fn lemma_path_in_bounds(b: Board, seeds: Set<GridPos>, path: Seq<GridPos>, i: int)
    requires
        b.wf(),
        b.flood_path(seeds, path),
        0 <= i < path.len(),
    ensures
        b.contains(path[i]),
    decreases i,
{
    if i > 0 {
        lemma_path_in_bounds(b, seeds, path, i - 1);
        assert(b.flood_step(path, i - 1));
        let k = choose|k: int|
            0 <= k < NEIGHBOR_COUNT && #[trigger] b.neighbor(path[i - 1], k) == Some(path[i]);
        lemma_neighbor_in_bounds(b, path[i - 1], k);
    }
}

/// Every cell that the flood spreads from lies on the board.
pub proof fn lemma_source_in_bounds(b: Board, seeds: Set<GridPos>, q: GridPos)
    requires
        b.wf(),
        b.flood_source(seeds, q),
    ensures
        b.contains(q),
{
    if b.flood_reaches(seeds, q) {
        let path = choose|path: Seq<GridPos>| #[trigger] b.flood_path(seeds, path) && path.last() == q;
        lemma_path_in_bounds(b, seeds, path, path.len() - 1);
    }
}

/// On a board without a cell marked `ExplodedSafe` every flood can run.
pub proof fn lemma_can_flood(b: Board, seeds: Set<GridPos>)
    requires
        b.wf(),
        b.free_of_wrong_flags(),
    ensures
        b.can_flood(seeds),
{
    assert forall|q: GridPos, k: int|
        b.flood_source(seeds, q) && b.n_bombs(q) == 0 && 0 <= k < NEIGHBOR_COUNT implies (
    #[trigger] b.neighbor(q, k) matches Some(n) ==> b.cell(n) != CellState::ExplodedSafe) by {
        lemma_source_in_bounds(b, seeds, q);
        lemma_neighbor_in_bounds(b, q, k);
    }
}

/// On a board without a cell marked `ExplodedSafe` the player can open and
/// flag every cell.
pub proof fn lemma_can_move(b: Board, pos: GridPos)
    requires
        b.wf(),
        b.contains(pos),
        b.free_of_wrong_flags(),
    ensures
        b.can_open(pos),
        b.can_flag(pos),
{
    let opened = b.put(pos, CellState::Opened);
    let flagged = b.put(pos, CellState::Flagged);
    assert forall|p: GridPos| opened.contains(p) implies #[trigger] opened.cell(p)
        != CellState::ExplodedSafe by {
        lemma_put_cell(b, pos, CellState::Opened, p);
    }
    assert forall|p: GridPos| flagged.contains(p) implies #[trigger] flagged.cell(p)
        != CellState::ExplodedSafe by {
        lemma_put_cell(b, pos, CellState::Flagged, p);
    }
    lemma_put_cell(b, pos, CellState::Opened, pos);
    lemma_put_cell(b, pos, CellState::Flagged, pos);
    lemma_can_flood(opened, set![pos]);
    lemma_can_flood(flagged, flagged.opened_around(pos));
}

/// The flood opens the cells that it reaches, which were concealed and
/// safe, and leaves every other cell as it was.
pub proof fn lemma_flood_cell(b: Board, seeds: Set<GridPos>, p: GridPos)
    requires
        b.wf(),
        b.contains(p),
    ensures
        b.flood(seeds).wf(),
        b.flood(seeds).same_shape(b),
        b.flood(seeds).cell(p) == (if b.flood_reaches(seeds, p) {
            CellState::Opened
        } else {
            b.cell(p)
        }),
        b.flood_reaches(seeds, p) ==> b.cell(p) == CellState::SecretSafe,
{
    lemma_index_in_range(b, p);
    if b.flood_reaches(seeds, p) {
        let path = choose|path: Seq<GridPos>| #[trigger] b.flood_path(seeds, path) && path.last() == p;
        assert(b.cell(path[path.len() - 1]) == CellState::SecretSafe);
    }
}

/// The flooded board is a stage of its own flood.
pub proof fn lemma_flood_is_flooding(b: Board, seeds: Set<GridPos>)
    requires
        b.wf(),
    ensures
        b.flood(seeds).flooding(b, seeds),
{
    let flooded = b.flood(seeds);
    assert forall|q: GridPos| #![trigger flooded.cell(q)] b.contains(q) implies flooded.cell(q)
        == b.cell(q) || (b.cell(q) == CellState::SecretSafe && flooded.cell(q)
        == CellState::Opened && b.flood_reaches(seeds, q)) by {
        lemma_flood_cell(b, seeds, q);
    }
}

/// The flood leaves every mine count as it was.
pub proof fn lemma_flood_keeps_counts(b: Board, seeds: Set<GridPos>, p: GridPos)
    requires
        b.wf(),
        b.contains(p),
    ensures
        b.flood(seeds).n_bombs(p) == b.n_bombs(p),
{
    lemma_flood_is_flooding(b, seeds);
    lemma_flooding_keeps_counts(b, seeds, b.flood(seeds), p);
}

/// After the flood, every neighbour of a cell of mine count zero that the
/// flood spread from is opened or flagged.
pub proof fn lemma_flood_settles(b: Board, seeds: Set<GridPos>, q: GridPos, k: int)
    requires
        b.wf(),
        b.can_flood(seeds),
        b.flood_source(seeds, q),
        b.n_bombs(q) == 0,
        0 <= k < NEIGHBOR_COUNT,
    ensures
        b.neighbor(q, k) matches Some(n) ==> b.flood(seeds).cell(n).is_cleared(),
{
    lemma_source_in_bounds(b, seeds, q);
    lemma_neighbor_in_bounds(b, q, k);
    if let Some(n) = b.neighbor(q, k) {
        lemma_flood_cell(b, seeds, n);
        lemma_zero_count(b, q);
        assert(b.mine_at(b.neighbor(q, k)) == 0);
        if b.cell(n) == CellState::SecretSafe {
            lemma_flood_reaches_neighbor(b, seeds, q, k, n);
        }
    }
}

/// The number of concealed safe cells among the first `n` of `cells`.
pub open spec fn secret_safe_count(cells: Seq<CellState>, n: int) -> nat
    decreases n,
{
    if n <= 0 {
        0
    } else {
        secret_safe_count(cells, n - 1) + if cells[n - 1] == CellState::SecretSafe {
            1nat
        } else {
            0nat
        }
    }
}

/// Replacing a concealed safe cell by another state lowers the count of
/// concealed safe cells by one.
pub proof fn lemma_secret_safe_count_drops(
    cells: Seq<CellState>,
    i: int,
    state: CellState,
    n: int,
)
    requires
        0 <= i < cells.len(),
        0 <= n <= cells.len(),
        cells[i] == CellState::SecretSafe,
        state != CellState::SecretSafe,
    ensures
        secret_safe_count(cells.update(i, state), n) + (if i < n {
            1nat
        } else {
            0nat
        }) == secret_safe_count(cells, n),
    decreases n,
{
    if n > 0 {
        lemma_secret_safe_count_drops(cells, i, state, n - 1);
    }
}

/// A stage of a flood has the mines where the board had them, so every cell
/// keeps its mine count.
pub proof fn lemma_flooding_keeps_counts(
    start: Board,
    seeds: Set<GridPos>,
    stage: Board,
    pos: GridPos,
)
    requires
        start.wf(),
        stage.flooding(start, seeds),
        start.contains(pos),
    ensures
        stage.n_bombs(pos) == start.n_bombs(pos),
{
    assert forall|q: GridPos| start.contains(q) implies start.cell(q).is_mine() == stage.cell(
        q,
    ).is_mine() by {
        assert(stage.cell(q) == start.cell(q) || stage.cell(q) == CellState::Opened);
    }
    lemma_same_mines_same_count(start, stage, pos);
}

/// Where no neighbour of `q` is a concealed safe cell, none is after
/// another cell has been opened.
pub proof fn lemma_settled_stays(stage: Board, n: GridPos, q: GridPos)
    requires
        stage.wf(),
        stage.contains(n),
        stage.contains(q),
        stage.settled(q),
    ensures
        stage.put(n, CellState::Opened).settled(q),
{
    let next = stage.put(n, CellState::Opened);
    assert forall|k: int| 0 <= k < NEIGHBOR_COUNT implies (#[trigger] next.neighbor(q, k) matches Some(
        m,
    ) ==> next.cell(m) != CellState::SecretSafe) by {
        assert(next.neighbor(q, k) == stage.neighbor(q, k));
        lemma_neighbor_in_bounds(stage, q, k);
        if let Some(m) = stage.neighbor(q, k) {
            lemma_put_cell(stage, n, CellState::Opened, m);
        }
    }
}

/// The flood reaches a concealed safe neighbour of a cell of mine count
/// zero that it spreads from.
pub proof fn lemma_flood_reaches_neighbor(
    start: Board,
    seeds: Set<GridPos>,
    center: GridPos,
    k: int,
    n: GridPos,
)
    requires
        start.wf(),
        start.contains(center),
        start.flood_source(seeds, center),
        start.n_bombs(center) == 0,
        0 <= k < NEIGHBOR_COUNT,
        start.neighbor(center, k) == Some(n),
        start.cell(n) == CellState::SecretSafe,
    ensures
        start.flood_reaches(seeds, n),
{
    if start.flood_reaches(seeds, center) {
        let path = choose|path: Seq<GridPos>| #[trigger]
            start.flood_path(seeds, path) && path.last() == center;
        let longer = path.push(n);
        assert forall|i: int| 0 <= i < longer.len() - 1 implies #[trigger] start.flood_step(
            longer,
            i,
        ) by {
            if i < path.len() - 1 {
                assert(start.flood_step(path, i));
                assert(longer[i] == path[i]);
                assert(longer[i + 1] == path[i + 1]);
            } else {
                assert(longer[i] == center);
                assert(longer[i + 1] == n);
            }
        }
        assert forall|i: int| #![trigger longer[i]] 1 <= i < longer.len() implies start.cell(
            longer[i],
        ) == CellState::SecretSafe by {
            if i < path.len() {
                assert(longer[i] == path[i]);
            }
        }
        assert(longer[0] == path[0]);
        assert(start.flood_path(seeds, longer));
        assert(longer.last() == n);
    } else {
        let path = seq![center, n];
        assert(path[0] == center);
        assert(path[1] == n);
        assert(start.flood_step(path, 0));
        assert(start.flood_path(seeds, path));
        assert(path.last() == n);
    }
}

/// Opening a concealed safe neighbour of a cell that the flood spreads from
/// gives the next stage of the flood.
pub proof fn lemma_flooding_step(
    start: Board,
    seeds: Set<GridPos>,
    stage: Board,
    center: GridPos,
    k: int,
    n: GridPos,
)
    requires
        start.wf(),
        stage.flooding(start, seeds),
        start.contains(center),
        start.flood_source(seeds, center),
        start.n_bombs(center) == 0,
        0 <= k < NEIGHBOR_COUNT,
        start.neighbor(center, k) == Some(n),
        stage.cell(n) == CellState::SecretSafe,
    ensures
        stage.put(n, CellState::Opened).flooding(start, seeds),
        start.flood_reaches(seeds, n),
{
    lemma_neighbor_in_bounds(start, center, k);
    assert(start.cell(n) == CellState::SecretSafe);
    lemma_flood_reaches_neighbor(start, seeds, center, k, n);
    let next = stage.put(n, CellState::Opened);
    assert(stage.wf());
    lemma_put_cell(stage, n, CellState::Opened, n);
    assert forall|q: GridPos| #![trigger next.cell(q)] start.contains(q) implies next.cell(q)
        == start.cell(q) || (start.cell(q) == CellState::SecretSafe && next.cell(q)
        == CellState::Opened && start.flood_reaches(seeds, q)) by {
        lemma_put_cell(stage, n, CellState::Opened, q);
        assert(stage.cell(q) == start.cell(q) || (start.cell(q) == CellState::SecretSafe
            && stage.cell(q) == CellState::Opened && start.flood_reaches(seeds, q)));
    }
}

/// On a stage where every opened cell of mine count zero that the flood
/// spreads from is settled, the flood has opened every cell along each of
/// its paths.
pub proof fn lemma_path_is_opened(
    start: Board,
    seeds: Set<GridPos>,
    stage: Board,
    path: Seq<GridPos>,
    i: int,
)
    requires
        start.wf(),
        stage.flooding(start, seeds),
        forall|q: GridPos|
            start.contains(q) && start.flood_source(seeds, q) && start.n_bombs(q) == 0
                && stage.cell(q) == CellState::Opened ==> #[trigger] stage.settled(q),
        start.flood_path(seeds, path),
        0 <= i < path.len(),
    ensures
        start.contains(path[i]),
        stage.cell(path[i]) == CellState::Opened,
        start.flood_source(seeds, path[i]),
    decreases i,
{
    if i > 0 {
        lemma_path_is_opened(start, seeds, stage, path, i - 1);
        let p = path[i - 1];
        let q = path[i];
        assert(start.flood_step(path, i - 1));
        let k = choose|k: int| 0 <= k < NEIGHBOR_COUNT && #[trigger] start.neighbor(p, k) == Some(q);
        lemma_neighbor_in_bounds(start, p, k);
        assert(stage.settled(p));
        assert(stage.neighbor(p, k) == start.neighbor(p, k));
        assert(stage.cell(q) != CellState::SecretSafe);
        assert(start.cell(q) == CellState::SecretSafe);
        let prefix = path.subrange(0, i + 1);
        assert forall|j: int| 0 <= j < prefix.len() - 1 implies #[trigger] start.flood_step(
            prefix,
            j,
        ) by {
            assert(start.flood_step(path, j));
            assert(prefix[j] == path[j]);
            assert(prefix[j + 1] == path[j + 1]);
        }
        assert forall|j: int| #![trigger prefix[j]] 1 <= j < prefix.len() implies start.cell(
            prefix[j],
        ) == CellState::SecretSafe by {
            assert(prefix[j] == path[j]);
        }
        assert(prefix[0] == path[0]);
        assert(start.flood_path(seeds, prefix));
        assert(prefix.last() == q);
    }
}

/// A stage of the flood on which every opened cell of mine count zero that
/// the flood spreads from is settled is the flooded board.
pub proof fn lemma_flooding_done(start: Board, seeds: Set<GridPos>, stage: Board)
    requires
        start.wf(),
        stage.flooding(start, seeds),
        forall|q: GridPos|
            start.contains(q) && start.flood_source(seeds, q) && start.n_bombs(q) == 0
                && stage.cell(q) == CellState::Opened ==> #[trigger] stage.settled(q),
    ensures
        stage == start.flood(seeds),
{
    let flooded = start.flood(seeds);
    assert forall|i: int| 0 <= i < start.cells.len() implies stage.cells[i] == flooded.cells[i] by {
        lemma_pos_of_index(start, i);
        let p = start.pos_of(i);
        assert(stage.cell(p) == stage.cells[i]);
        assert(start.cell(p) == start.cells[i]);
        if start.flood_reaches(seeds, p) {
            let path = choose|path: Seq<GridPos>| #[trigger]
                start.flood_path(seeds, path) && path.last() == p;
            lemma_path_is_opened(start, seeds, stage, path, path.len() - 1);
        }
    }
    assert(stage.cells =~= flooded.cells);
}

} // verus!
