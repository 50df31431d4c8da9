//! The flood and the two moves of the player, on the grid.

use vstd::prelude::*;
use vstd::pervasive::unreached;
use crate::board::{
    lemma_index_in_range, lemma_neighbor_in_bounds, lemma_put_cell, lemma_zero_count, Board,
    GridPos, NEIGHBOR_COUNT,
};
use crate::cell::CellState;
use crate::flood::{
    lemma_flood_settles, lemma_flooding_done, lemma_flooding_keeps_counts, lemma_flooding_step,
    lemma_secret_safe_count_drops, lemma_settled_stays, secret_safe_count,
};
use crate::grid::Grid;
use crate::laws::{lemma_flag_keeps_flooded, lemma_open_keeps_flooded};

verus! {

/// Every cell that waits in `pending` is an opened cell that the flood
/// spreads from.
spec fn pending_ok(start: Board, seeds: Set<GridPos>, stage: Board, pending: Seq<GridPos>) -> bool {
    forall|j: int|
        0 <= j < pending.len() ==> start.contains(#[trigger] pending[j]) && stage.cell(pending[j])
            == CellState::Opened && start.flood_source(seeds, pending[j])
}

/// Every opened cell of mine count zero that the flood spreads from is
/// settled, but for those that wait in `pending` and the one in hand.
spec fn spread_done(
    start: Board,
    seeds: Set<GridPos>,
    stage: Board,
    pending: Seq<GridPos>,
    in_hand: Option<GridPos>,
) -> bool {
    forall|q: GridPos|
        start.contains(q) && start.flood_source(seeds, q) && start.n_bombs(q) == 0 && stage.cell(q)
            == CellState::Opened && !pending.contains(q) && Some(q) != in_hand
            ==> #[trigger] stage.settled(q)
}

/// What the flood has still to do at most: two steps for each concealed safe
/// cell, one for each cell that waits.
spec fn work_left(stage: Board, pending: Seq<GridPos>) -> nat {
    2 * secret_safe_count(stage.cells, stage.cells.len() as int) + pending.len()
}

impl Grid {
    /// The cells a flood at `pos` starts from, each once for every way it is
    /// a neighbour of `pos`.
    fn flood_start(&self, pos: GridPos) -> (pending: Vec<GridPos>)
        requires
            self.wf(),
            self@.contains(pos),
            self@.cell(pos) == CellState::Opened || self@.cell(pos) == CellState::Flagged,
        ensures
            forall|q: GridPos| self@.flood_seeds(pos).contains(q) ==> pending@.contains(q),
            forall|j: int|
                0 <= j < pending@.len() ==> self@.contains(#[trigger] pending@[j])
                    && self@.flood_seeds(pos).contains(pending@[j]) && self@.cell(pending@[j])
                    == CellState::Opened,
    {
        let mut pending: Vec<GridPos> = Vec::new();
        if self.get(pos) == CellState::Opened {
            pending.push(pos);
            assert(pending@[0] == pos);
            return pending;
        }
        let around = self.neighbors(pos);
        let mut k: usize = 0;
        while k < NEIGHBOR_COUNT
            invariant
                self.wf(),
                self@.contains(pos),
                self@.cell(pos) == CellState::Flagged,
                around@ == self@.neighbors(pos),
                k <= NEIGHBOR_COUNT,
                forall|i: int|
                    0 <= i < k ==> (#[trigger] self@.neighbor(pos, i) matches Some(q) ==> self@.cell(
                        q,
                    ) == CellState::Opened ==> pending@.contains(q)),
                forall|j: int|
                    0 <= j < pending@.len() ==> self@.contains(#[trigger] pending@[j])
                        && self@.opened_around(pos).contains(pending@[j]),
            decreases NEIGHBOR_COUNT - k,
        {
            proof {
                lemma_neighbor_in_bounds(self@, pos, k as int);
            }
            assert(around@[k as int] == self@.neighbor(pos, k as int));
            let ghost before = pending@;
            if let Some(q) = around[k] {
                if self.get(q) == CellState::Opened {
                    pending.push(q);
                    assert(pending@[before.len() as int] == q);
                }
            }
            proof {
                assert forall|i: int| 0 <= i < k + 1 implies (#[trigger] self@.neighbor(
                    pos,
                    i,
                ) matches Some(q) ==> self@.cell(q) == CellState::Opened ==> pending@.contains(
                    q,
                )) by {
                    if let Some(q) = self@.neighbor(pos, i) {
                        if self@.cell(q) == CellState::Opened && i < k {
                            let j = choose|j: int| 0 <= j < before.len() && before[j] == q;
                            assert(pending@[j] == q);
                        }
                    }
                }
            }
            k += 1;
        }
        proof {
            assert forall|q: GridPos| self@.flood_seeds(pos).contains(q) implies pending@.contains(
                q,
            ) by {
                let i = choose|i: int|
                    0 <= i < NEIGHBOR_COUNT && #[trigger] self@.neighbor(pos, i) == Some(q);
                assert(self@.neighbor(pos, i) matches Some(n) ==> self@.cell(n)
                    == CellState::Opened ==> pending@.contains(n));
            }
        }
        pending
    }

    /// Spreads the reveal from `pos`, an opened cell or a flagged one: from
    /// the cell itself where it is opened, from its opened neighbours where
    /// it is flagged. From each cell of mine count zero that it comes to, it
    /// opens the concealed safe neighbours and goes on from them.
    pub fn flood(&mut self, pos: GridPos)
        requires
            old(self).wf(),
            old(self)@.contains(pos),
            old(self)@.cell(pos) == CellState::Opened || old(self)@.cell(pos)
                == CellState::Flagged,
            old(self)@.can_flood(old(self)@.flood_seeds(pos)),
        ensures
            final(self).wf(),
            final(self)@ == old(self)@.flood(old(self)@.flood_seeds(pos)),
            forall|p: GridPos|
                old(self)@.contains(p) ==> #[trigger] final(self)@.cell(p) == old(self)@.cell(p)
                    || (old(self)@.cell(p) == CellState::SecretSafe && final(self)@.cell(p)
                    == CellState::Opened),
            forall|q: GridPos, k: int|
                old(self)@.flood_source(old(self)@.flood_seeds(pos), q) && old(self)@.n_bombs(q)
                    == 0 && 0 <= k < NEIGHBOR_COUNT ==> (#[trigger] old(self)@.neighbor(
                    q,
                    k,
                ) matches Some(n) ==> final(self)@.cell(n).is_cleared()),
    {
        let ghost start = self@;
        let ghost seeds = start.flood_seeds(pos);
        let mut to_flood = self.flood_start(pos);
        proof {
            assert forall|q: GridPos|
                start.contains(q) && start.flood_source(seeds, q) && start.cell(q)
                    == CellState::Opened implies to_flood@.contains(q) by {
                if start.flood_reaches(seeds, q) {
                    let path = choose|path: Seq<GridPos>| #[trigger]
                        start.flood_path(seeds, path) && path.last() == q;
                    assert(start.cell(path[path.len() - 1]) == CellState::SecretSafe);
                }
            }
        }
        while to_flood.len() > 0
            invariant
                start.wf(),
                self.wf(),
                self@.flooding(start, seeds),
                start.can_flood(seeds),
                pending_ok(start, seeds, self@, to_flood@),
                spread_done(start, seeds, self@, to_flood@, None),
            decreases work_left(self@, to_flood@),
        {
            let ghost before = to_flood@;
            let ghost budget = work_left(self@, to_flood@);
            let center = to_flood.pop().unwrap();
            assert(center == before[before.len() - 1]);
            proof {
                lemma_flooding_keeps_counts(start, seeds, self@, center);
                assert forall|j: int| 0 <= j < to_flood@.len() implies to_flood@[j] == before[j] by {}
                assert forall|q: GridPos| !to_flood@.contains(q) && q != center implies !before.contains(
                    q,
                ) by {
                    if before.contains(q) {
                        let j = choose|j: int| 0 <= j < before.len() && before[j] == q;
                        assert(to_flood@[j] == q);
                    }
                }
            }
            if self.n_bombs(center) == 0 {
                let around = self.neighbors(center);
                let mut k: usize = 0;
                while k < NEIGHBOR_COUNT
                    invariant
                        start.wf(),
                        self.wf(),
                        self@.flooding(start, seeds),
                        start.can_flood(seeds),
                        pending_ok(start, seeds, self@, to_flood@),
                        spread_done(start, seeds, self@, to_flood@, Some(center)),
                        start.contains(center),
                        start.flood_source(seeds, center),
                        start.n_bombs(center) == 0,
                        self@.cell(center) == CellState::Opened,
                        around@ == start.neighbors(center),
                        k <= NEIGHBOR_COUNT,
                        forall|i: int|
                            0 <= i < k ==> (#[trigger] self@.neighbor(center, i) matches Some(n)
                                ==> self@.cell(n) != CellState::SecretSafe),
                        work_left(self@, to_flood@) < budget,
                    decreases NEIGHBOR_COUNT - k,
                {
                    assert(around@[k as int] == start.neighbor(center, k as int));
                    assert(self@.neighbor(center, k as int) == start.neighbor(center, k as int));
                    proof {
                        lemma_neighbor_in_bounds(start, center, k as int);
                    }
                    if let Some(n) = around[k] {
                        match self.get(n) {
                            CellState::SecretSafe => {
                                let ghost stage = self@;
                                let ghost waiting = to_flood@;
                                self.set(n, CellState::Opened);
                                to_flood.push(n);
                                proof {
                                    lemma_flooding_step(start, seeds, stage, center, k as int, n);
                                    lemma_index_in_range(stage, n);
                                    lemma_secret_safe_count_drops(
                                        stage.cells,
                                        stage.index_of(n),
                                        CellState::Opened,
                                        stage.cells.len() as int,
                                    );
                                    lemma_put_cell(stage, n, CellState::Opened, center);
                                    assert forall|j: int|
                                        0 <= j < to_flood@.len() implies start.contains(
                                        #[trigger] to_flood@[j],
                                    ) && self@.cell(to_flood@[j]) == CellState::Opened
                                        && start.flood_source(seeds, to_flood@[j]) by {
                                        if j < waiting.len() {
                                            assert(to_flood@[j] == waiting[j]);
                                            lemma_put_cell(
                                                stage,
                                                n,
                                                CellState::Opened,
                                                waiting[j],
                                            );
                                        } else {
                                            lemma_put_cell(stage, n, CellState::Opened, n);
                                        }
                                    }
                                    assert forall|q: GridPos|
                                        start.contains(q) && start.flood_source(seeds, q)
                                            && start.n_bombs(q) == 0 && self@.cell(q)
                                            == CellState::Opened && !to_flood@.contains(q) && Some(
                                            q,
                                        ) != Some(center) implies #[trigger] self@.settled(q) by {
                                        assert(to_flood@[waiting.len() as int] == n);
                                        assert(q != n);
                                        lemma_put_cell(stage, n, CellState::Opened, q);
                                        if waiting.contains(q) {
                                            let j = choose|j: int|
                                                0 <= j < waiting.len() && waiting[j] == q;
                                            assert(to_flood@[j] == q);
                                        }
                                        assert(stage.settled(q));
                                        lemma_settled_stays(stage, n, q);
                                    }
                                    assert forall|i: int| 0 <= i < k + 1 implies (
                                    #[trigger] self@.neighbor(center, i) matches Some(m)
                                        ==> self@.cell(m) != CellState::SecretSafe) by {
                                        assert(self@.neighbor(center, i) == stage.neighbor(
                                            center,
                                            i,
                                        ));
                                        lemma_neighbor_in_bounds(start, center, i);
                                        assert(stage.neighbor(center, i) == start.neighbor(
                                            center,
                                            i,
                                        ));
                                        if let Some(m) = stage.neighbor(center, i) {
                                            lemma_put_cell(stage, n, CellState::Opened, m);
                                        }
                                    }
                                }
                            },
                            CellState::Opened | CellState::Flagged => {},
                            CellState::ExplodedSafe | CellState::ExplodedBomb
                            | CellState::SecretBomb => {
                                proof {
                                    lemma_zero_count(start, center);
                                    assert(start.mine_at(start.neighbor(center, k as int)) == 0);
                                    assert(self@.cell(n) == start.cell(n));
                                }
                                unreached::<()>()
                            },
                        }
                    }
                    k += 1;
                }
                assert(self@.settled(center));
            }
        }
        proof {
            lemma_flooding_done(start, seeds, self@);
            assert forall|q: GridPos, k: int|
                start.flood_source(seeds, q) && start.n_bombs(q) == 0 && 0 <= k
                    < NEIGHBOR_COUNT implies (#[trigger] start.neighbor(q, k) matches Some(n)
                ==> self@.cell(n).is_cleared()) by {
                lemma_flood_settles(start, seeds, q, k);
            }
        }
    }

    /// The player opens the cell at `pos`. A concealed mine explodes and the
    /// result is `true`; a concealed safe cell is opened and the flood
    /// spreads from it; a cell in any other state is left alone.
    pub fn open(&mut self, pos: GridPos) -> (exploded: bool)
        requires
            old(self).wf(),
            old(self)@.contains(pos),
            old(self)@.can_open(pos),
        ensures
            final(self).wf(),
            final(self)@ == old(self)@.open(pos),
            exploded == (old(self)@.cell(pos) == CellState::SecretBomb),
            !old(self)@.cell(pos).is_secret() ==> final(self)@ == old(self)@ && !exploded,
            old(self)@.flooded() ==> final(self)@.flooded(),
    {
        proof {
            if self@.flooded() {
                lemma_open_keeps_flooded(self@, pos);
            }
        }
        match self.get(pos) {
            CellState::SecretBomb => {
                self.set(pos, CellState::ExplodedBomb);
                true
            },
            CellState::SecretSafe => {
                proof {
                    lemma_put_cell(self@, pos, CellState::Opened, pos);
                }
                self.set(pos, CellState::Opened);
                self.flood(pos);
                false
            },
            _ => false,
        }
    }

    /// The player flags the cell at `pos` as a mine. A concealed mine is
    /// flagged and the flood spreads from its opened neighbours; a concealed
    /// safe cell explodes and the result is `true`; a cell in any other
    /// state is left alone.
    pub fn flag(&mut self, pos: GridPos) -> (exploded: bool)
        requires
            old(self).wf(),
            old(self)@.contains(pos),
            old(self)@.can_flag(pos),
        ensures
            final(self).wf(),
            final(self)@ == old(self)@.flag(pos),
            exploded == (old(self)@.cell(pos) == CellState::SecretSafe),
            !old(self)@.cell(pos).is_secret() ==> final(self)@ == old(self)@ && !exploded,
            old(self)@.flooded() ==> final(self)@.flooded(),
    {
        proof {
            if self@.flooded() {
                lemma_flag_keeps_flooded(self@, pos);
            }
        }
        match self.get(pos) {
            CellState::SecretBomb => {
                proof {
                    lemma_put_cell(self@, pos, CellState::Flagged, pos);
                }
                self.set(pos, CellState::Flagged);
                self.flood(pos);
                false
            },
            CellState::SecretSafe => {
                self.set(pos, CellState::ExplodedSafe);
                true
            },
            _ => false,
        }
    }
}

} // verus!
