//! What holds of every game: the laws of the board that the moves keep.

use vstd::prelude::*;
use crate::board::{
    lemma_clear_explosions_cell, lemma_dims_fit, lemma_index_in_range, lemma_neighbor_in_bounds,
    lemma_neighbor_symmetric, lemma_pos_of_index, lemma_put_alike_keeps_count, lemma_put_cell,
    lemma_put_far_keeps_count, lemma_same_mines_same_count, lemma_zero_count, opposite, Board,
    GridPos, NEIGHBOR_COUNT,
};
use crate::cell::CellState;
use crate::flood::{
    lemma_can_move, lemma_flood_cell, lemma_flood_keeps_counts, lemma_flood_reaches_neighbor,
    lemma_flood_settles,
};
use crate::start::{lemma_clear_around_cell, lemma_lay_is_concealed, lemma_zero_positions};

verus! {

impl Board {
    /// The reveal is complete: every neighbour of an opened cell of mine
    /// count zero is opened or flagged. On such a board no opened cell of
    /// count zero has a concealed cell, and so no mine, beside it.
    pub open spec fn flooded(self) -> bool {
        forall|q: GridPos, k: int|
            self.contains(q) && self.cell(q) == CellState::Opened && self.n_bombs(q) == 0 && 0
                <= k < NEIGHBOR_COUNT ==> (#[trigger] self.neighbor(q, k) matches Some(n)
                ==> self.cell(n).is_cleared())
    }
}

/// The mine count of a cell is at most eight.
pub proof fn lemma_n_bombs_bound(b: Board, pos: GridPos)
    ensures
        b.n_bombs(pos) <= NEIGHBOR_COUNT,
{
    reveal_with_fuel(Board::mines_among, 9);
}

/// On a torus the cell above the first cell of the first row is the first
/// cell of the last row; on a bounded board there is no cell above it.
pub proof fn lemma_above_origin(b: Board)
    requires
        b.wf(),
    ensures
        b.torus ==> b.above(GridPos { row: 0, col: 0 }) == Some(
            GridPos { row: (b.height - 1) as usize, col: 0 },
        ),
        !b.torus ==> b.above(GridPos { row: 0, col: 0 }) is None,
{
}

/// On a torus the steps wrap by modular arithmetic on the row and on the
/// column, and every cell has all eight neighbours.
pub proof fn lemma_torus_wraps(b: Board, p: GridPos)
    requires
        b.wf(),
        b.torus,
        b.contains(p),
    ensures
        b.above(p) == Some(
            GridPos { row: ((p.row + b.height - 1) % b.height as int) as usize, col: p.col },
        ),
        b.below(p) == Some(GridPos { row: ((p.row + 1) % b.height as int) as usize, col: p.col }),
        b.left(p) == Some(
            GridPos { row: p.row, col: ((p.col + b.width - 1) % b.width as int) as usize },
        ),
        b.right(p) == Some(GridPos { row: p.row, col: ((p.col + 1) % b.width as int) as usize }),
        forall|k: int| 0 <= k < NEIGHBOR_COUNT ==> (#[trigger] b.neighbor(p, k)) is Some,
{
    let h = b.height as int;
    let w = b.width as int;
    let r = p.row as int;
    let c = p.col as int;
    if r > 0 {
        vstd::arithmetic::div_mod::lemma_mod_add_multiples_vanish(r - 1, h);
        vstd::arithmetic::div_mod::lemma_small_mod((r - 1) as nat, h as nat);
    } else {
        vstd::arithmetic::div_mod::lemma_small_mod((h - 1) as nat, h as nat);
    }
    if r + 1 < h {
        vstd::arithmetic::div_mod::lemma_small_mod((r + 1) as nat, h as nat);
    } else {
        vstd::arithmetic::div_mod::lemma_mod_self_0(h);
    }
    if c > 0 {
        vstd::arithmetic::div_mod::lemma_mod_add_multiples_vanish(c - 1, w);
        vstd::arithmetic::div_mod::lemma_small_mod((c - 1) as nat, w as nat);
    } else {
        vstd::arithmetic::div_mod::lemma_small_mod((w - 1) as nat, w as nat);
    }
    if c + 1 < w {
        vstd::arithmetic::div_mod::lemma_small_mod((c + 1) as nat, w as nat);
    } else {
        vstd::arithmetic::div_mod::lemma_mod_self_0(w);
    }
}

/// A board is won exactly when no cell is concealed and none has exploded.
/// So on a board without an explosion, the game is won exactly when no
/// concealed cell is left.
pub proof fn lemma_win_leaves_nothing_secret(b: Board)
    requires
        b.wf(),
    ensures
        b.is_win() <==> !b.has_secret() && !b.has_explosion(),
        !b.has_explosion() ==> (b.is_win() <==> !b.has_secret()),
{
    if !b.has_secret() && !b.has_explosion() {
        assert forall|p: GridPos| b.contains(p) implies (#[trigger] b.cell(p)).is_cleared() by {
            assert(!b.cell(p).is_secret());
            assert(!b.cell(p).is_exploded());
        }
    }
}

/// A move on a cell that is opened, flagged or exploded changes nothing.
pub proof fn lemma_move_on_resolved_cell(b: Board, pos: GridPos)
    requires
        !b.cell(pos).is_secret(),
    ensures
        b.open(pos) == b,
        b.flag(pos) == b,
{
}

/// After a move the cell that it was made on is concealed no more, so the
/// same move made again changes nothing.
pub proof fn lemma_move_twice(b: Board, pos: GridPos)
    requires
        b.wf(),
        b.contains(pos),
    ensures
        !b.open(pos).cell(pos).is_secret(),
        !b.flag(pos).cell(pos).is_secret(),
        b.open(pos).open(pos) == b.open(pos),
        b.flag(pos).flag(pos) == b.flag(pos),
{
    lemma_put_cell(b, pos, CellState::ExplodedBomb, pos);
    lemma_put_cell(b, pos, CellState::ExplodedSafe, pos);
    lemma_put_cell(b, pos, CellState::Opened, pos);
    lemma_put_cell(b, pos, CellState::Flagged, pos);
    let opened = b.put(pos, CellState::Opened);
    lemma_flood_cell(opened, set![pos], pos);
    let flagged = b.put(pos, CellState::Flagged);
    lemma_flood_cell(flagged, flagged.opened_around(pos), pos);
}

/// A move leaves a well-formed board of the same shape, and never turns a
/// concealed mine into an opened cell: each cell is as before, or is the cell
/// of the move, or was concealed and safe and is opened.
pub proof fn lemma_move_cell(b: Board, pos: GridPos, p: GridPos)
    requires
        b.wf(),
        b.contains(pos),
        b.contains(p),
    ensures
        b.open(pos).wf(),
        b.open(pos).same_shape(b),
        b.flag(pos).wf(),
        b.flag(pos).same_shape(b),
        p != pos ==> b.open(pos).cell(p) == b.cell(p) || (b.cell(p) == CellState::SecretSafe
            && b.open(pos).cell(p) == CellState::Opened),
        p != pos ==> b.flag(pos).cell(p) == b.cell(p) || (b.cell(p) == CellState::SecretSafe
            && b.flag(pos).cell(p) == CellState::Opened),
        b.open(pos).cell(pos) == (match b.cell(pos) {
            CellState::SecretBomb => CellState::ExplodedBomb,
            CellState::SecretSafe => CellState::Opened,
            other => other,
        }),
        b.flag(pos).cell(pos) == (match b.cell(pos) {
            CellState::SecretBomb => CellState::Flagged,
            CellState::SecretSafe => CellState::ExplodedSafe,
            other => other,
        }),
{
    lemma_put_cell(b, pos, CellState::ExplodedBomb, p);
    lemma_put_cell(b, pos, CellState::ExplodedSafe, p);
    lemma_put_cell(b, pos, CellState::Opened, p);
    lemma_put_cell(b, pos, CellState::Flagged, p);
    lemma_put_cell(b, pos, CellState::ExplodedBomb, pos);
    lemma_put_cell(b, pos, CellState::ExplodedSafe, pos);
    lemma_put_cell(b, pos, CellState::Opened, pos);
    lemma_put_cell(b, pos, CellState::Flagged, pos);
    let opened = b.put(pos, CellState::Opened);
    lemma_flood_cell(opened, set![pos], p);
    lemma_flood_cell(opened, set![pos], pos);
    let flagged = b.put(pos, CellState::Flagged);
    lemma_flood_cell(flagged, flagged.opened_around(pos), p);
    lemma_flood_cell(flagged, flagged.opened_around(pos), pos);
}

/// A move on a board without an explosion leaves one exactly when the move
/// was a losing one.
pub proof fn lemma_move_explosion(b: Board, pos: GridPos)
    requires
        b.wf(),
        b.contains(pos),
        !b.has_explosion(),
    ensures
        b.free_of_wrong_flags(),
        b.open(pos).has_explosion() <==> b.cell(pos) == CellState::SecretBomb,
        b.flag(pos).has_explosion() <==> b.cell(pos) == CellState::SecretSafe,
{
    assert forall|p: GridPos| b.contains(p) implies #[trigger] b.cell(p)
        != CellState::ExplodedSafe by {
        assert(!b.cell(p).is_exploded());
    }
    lemma_move_cell(b, pos, pos);
    assert(b.open(pos).contains(pos));
    assert(b.flag(pos).contains(pos));
    if b.cell(pos) != CellState::SecretBomb {
        assert forall|p: GridPos| b.open(pos).contains(p) implies !(#[trigger] b.open(pos).cell(
            p,
        )).is_exploded() by {
            lemma_move_cell(b, pos, p);
            assert(!b.cell(p).is_exploded());
        }
    } else {
        assert(b.open(pos).cell(pos).is_exploded());
    }
    if b.cell(pos) != CellState::SecretSafe {
        assert forall|p: GridPos| b.flag(pos).contains(p) implies !(#[trigger] b.flag(pos).cell(
            p,
        )).is_exploded() by {
            lemma_move_cell(b, pos, p);
            assert(!b.cell(p).is_exploded());
        }
    } else {
        assert(b.flag(pos).cell(pos).is_exploded());
    }
}

/// Taking back the losing move leaves no explosion.
pub proof fn lemma_clear_explosions_clears(b: Board)
    requires
        b.wf(),
    ensures
        b.clear_explosions().wf(),
        !b.clear_explosions().has_explosion(),
{
    lemma_clear_explosions_cell(b, GridPos { row: 0, col: 0 });
    assert forall|p: GridPos| b.clear_explosions().contains(p) implies !(
    #[trigger] b.clear_explosions().cell(p)).is_exploded() by {
        lemma_clear_explosions_cell(b, p);
    }
}

/// Taking back a losing move restores the board: on a board without an
/// explosion, a move that explodes followed by the undo leaves the board as
/// it was before the move.
pub proof fn lemma_undo_restores(b: Board, pos: GridPos)
    requires
        b.wf(),
        b.contains(pos),
        !b.has_explosion(),
    ensures
        b.cell(pos) == CellState::SecretBomb ==> b.open(pos).clear_explosions() == b,
        b.cell(pos) == CellState::SecretSafe ==> b.flag(pos).clear_explosions() == b,
{
    lemma_index_in_range(b, pos);
    assert forall|i: int| 0 <= i < b.cells.len() implies !(#[trigger] b.cells[i]).is_exploded() by {
        lemma_pos_of_index(b, i);
        assert(!b.cell(b.pos_of(i)).is_exploded());
    }
    if b.cell(pos) == CellState::SecretBomb {
        assert(b.open(pos).clear_explosions().cells =~= b.cells);
    }
    if b.cell(pos) == CellState::SecretSafe {
        assert(b.flag(pos).clear_explosions().cells =~= b.cells);
    }
}

/// Opening a cell keeps the reveal complete.
pub proof fn lemma_open_keeps_flooded(b: Board, pos: GridPos)
    requires
        b.wf(),
        b.contains(pos),
        b.flooded(),
        b.can_open(pos),
    ensures
        b.open(pos).flooded(),
{
    let after = b.open(pos);
    if b.cell(pos) == CellState::SecretBomb {
        assert forall|q: GridPos, k: int|
            after.contains(q) && after.cell(q) == CellState::Opened && after.n_bombs(q) == 0 && 0
                <= k < NEIGHBOR_COUNT implies (#[trigger] after.neighbor(q, k) matches Some(n)
            ==> after.cell(n).is_cleared()) by {
            lemma_put_cell(b, pos, CellState::ExplodedBomb, q);
            lemma_put_alike_keeps_count(b, pos, CellState::ExplodedBomb, q);
            lemma_neighbor_in_bounds(b, q, k);
            assert(after.neighbor(q, k) == b.neighbor(q, k));
            if let Some(n) = b.neighbor(q, k) {
                lemma_put_cell(b, pos, CellState::ExplodedBomb, n);
            }
        }
    } else if b.cell(pos) == CellState::SecretSafe {
        let opened = b.put(pos, CellState::Opened);
        let seeds = set![pos];
        lemma_put_cell(b, pos, CellState::Opened, pos);
        assert forall|q: GridPos, k: int|
            after.contains(q) && after.cell(q) == CellState::Opened && after.n_bombs(q) == 0 && 0
                <= k < NEIGHBOR_COUNT implies (#[trigger] after.neighbor(q, k) matches Some(n)
            ==> after.cell(n).is_cleared()) by {
            lemma_flood_cell(opened, seeds, q);
            lemma_flood_keeps_counts(opened, seeds, q);
            lemma_neighbor_in_bounds(opened, q, k);
            assert(after.neighbor(q, k) == opened.neighbor(q, k));
            assert(opened.neighbor(q, k) == b.neighbor(q, k));
            if opened.flood_source(seeds, q) {
                lemma_flood_settles(opened, seeds, q, k);
            } else {
                assert(q != pos);
                lemma_put_cell(b, pos, CellState::Opened, q);
                lemma_put_alike_keeps_count(b, pos, CellState::Opened, q);
                if let Some(n) = b.neighbor(q, k) {
                    lemma_put_cell(b, pos, CellState::Opened, n);
                    lemma_flood_cell(opened, seeds, n);
                }
            }
        }
    }
}

/// A cell that is no neighbour of `pos` does not have `pos` as a neighbour.
proof fn lemma_not_adjacent_back(b: Board, pos: GridPos, q: GridPos)
    requires
        b.wf(),
        b.contains(pos),
        b.contains(q),
        !b.adjacent(pos, q),
    ensures
        forall|j: int| 0 <= j < NEIGHBOR_COUNT ==> #[trigger] b.neighbor(q, j) != Some(pos),
{
    assert forall|j: int| 0 <= j < NEIGHBOR_COUNT implies #[trigger] b.neighbor(q, j) != Some(
        pos,
    ) by {
        lemma_neighbor_symmetric(b, q, j);
        if b.neighbor(q, j) == Some(pos) {
            assert(b.neighbor(pos, opposite(j)) == Some(q));
        }
    }
}

/// After a mine was flagged, an opened cell of mine count zero that the
/// flood did not spread from has the neighbours it had, all opened or
/// flagged.
proof fn lemma_flag_far_cell(b: Board, pos: GridPos, q: GridPos, k: int)
    requires
        b.wf(),
        b.contains(pos),
        b.contains(q),
        b.flooded(),
        b.cell(pos) == CellState::SecretBomb,
        0 <= k < NEIGHBOR_COUNT,
        b.cell(q) == CellState::Opened,
        !b.adjacent(pos, q),
        b.put(pos, CellState::Flagged).n_bombs(q) == 0,
    ensures
        b.neighbor(q, k) matches Some(n) ==> b.contains(n) && b.cell(n).is_cleared() && n != pos,
{
    lemma_not_adjacent_back(b, pos, q);
    lemma_put_far_keeps_count(b, pos, CellState::Flagged, q);
    lemma_neighbor_in_bounds(b, q, k);
}

/// After a mine was flagged and the flood has run, every neighbour of an
/// opened cell of mine count zero is opened or flagged.
proof fn lemma_flag_mine_settles(b: Board, pos: GridPos, q: GridPos, k: int)
    requires
        b.wf(),
        b.contains(pos),
        b.contains(q),
        b.flooded(),
        b.can_flag(pos),
        b.cell(pos) == CellState::SecretBomb,
        b.flag(pos).cell(q) == CellState::Opened,
        b.flag(pos).n_bombs(q) == 0,
        0 <= k < NEIGHBOR_COUNT,
    ensures
        b.neighbor(q, k) matches Some(n) ==> b.flag(pos).cell(n).is_cleared(),
{
    let flagged = b.put(pos, CellState::Flagged);
    let seeds = flagged.opened_around(pos);
    lemma_put_cell(b, pos, CellState::Flagged, pos);
    lemma_put_cell(b, pos, CellState::Flagged, q);
    lemma_flood_cell(flagged, seeds, q);
    lemma_flood_keeps_counts(flagged, seeds, q);
    if flagged.flood_source(seeds, q) {
        assert(flagged.neighbor(q, k) == b.neighbor(q, k));
        lemma_flood_settles(flagged, seeds, q, k);
    } else {
        assert(flagged.cell(q) == CellState::Opened);
        assert(!seeds.contains(q));
        assert(!b.adjacent(pos, q)) by {
            if b.adjacent(pos, q) {
                let j = choose|j: int|
                    0 <= j < NEIGHBOR_COUNT && #[trigger] b.neighbor(pos, j) == Some(q);
                assert(flagged.neighbor(pos, j) == Some(q));
                assert(flagged.adjacent(pos, q));
            }
        }
        lemma_flag_far_cell(b, pos, q, k);
        if let Some(n) = b.neighbor(q, k) {
            lemma_put_cell(b, pos, CellState::Flagged, n);
            lemma_flood_cell(flagged, seeds, n);
        }
    }
}

/// After a safe cell was flagged, every neighbour of an opened cell of mine
/// count zero is opened or flagged as before.
proof fn lemma_flag_safe_settles(b: Board, pos: GridPos, q: GridPos, k: int)
    requires
        b.wf(),
        b.contains(pos),
        b.contains(q),
        b.flooded(),
        b.cell(pos) == CellState::SecretSafe,
        b.flag(pos).cell(q) == CellState::Opened,
        b.flag(pos).n_bombs(q) == 0,
        0 <= k < NEIGHBOR_COUNT,
    ensures
        b.neighbor(q, k) matches Some(n) ==> b.flag(pos).cell(n).is_cleared(),
{
    lemma_put_cell(b, pos, CellState::ExplodedSafe, q);
    lemma_put_alike_keeps_count(b, pos, CellState::ExplodedSafe, q);
    lemma_neighbor_in_bounds(b, q, k);
    if let Some(n) = b.neighbor(q, k) {
        lemma_put_cell(b, pos, CellState::ExplodedSafe, n);
    }
}

/// Flagging a cell keeps the reveal complete.
pub proof fn lemma_flag_keeps_flooded(b: Board, pos: GridPos)
    requires
        b.wf(),
        b.contains(pos),
        b.flooded(),
        b.can_flag(pos),
    ensures
        b.flag(pos).flooded(),
{
    let after = b.flag(pos);
    lemma_move_cell(b, pos, pos);
    if b.cell(pos).is_secret() {
        assert forall|q: GridPos, k: int|
            after.contains(q) && after.cell(q) == CellState::Opened && after.n_bombs(q) == 0 && 0
                <= k < NEIGHBOR_COUNT implies (#[trigger] after.neighbor(q, k) matches Some(n)
            ==> after.cell(n).is_cleared()) by {
            assert(after.neighbor(q, k) == b.neighbor(q, k));
            if b.cell(pos) == CellState::SecretSafe {
                lemma_flag_safe_settles(b, pos, q, k);
            } else {
                lemma_flag_mine_settles(b, pos, q, k);
            }
        }
    }
}

/// Taking back a losing move keeps the reveal complete.
pub proof fn lemma_clear_explosions_keeps_flooded(b: Board)
    requires
        b.wf(),
        b.flooded(),
    ensures
        b.clear_explosions().flooded(),
{
    let after = b.clear_explosions();
    assert forall|p: GridPos| b.contains(p) implies b.cell(p).is_mine() == after.cell(p).is_mine() by {
        lemma_clear_explosions_cell(b, p);
    }
    lemma_clear_explosions_cell(b, GridPos { row: 0, col: 0 });
    assert forall|q: GridPos, k: int|
        after.contains(q) && after.cell(q) == CellState::Opened && after.n_bombs(q) == 0 && 0 <= k
            < NEIGHBOR_COUNT implies (#[trigger] after.neighbor(q, k) matches Some(n)
        ==> after.cell(n).is_cleared()) by {
        lemma_clear_explosions_cell(b, q);
        lemma_same_mines_same_count(b, after, q);
        lemma_neighbor_in_bounds(b, q, k);
        assert(after.neighbor(q, k) == b.neighbor(q, k));
        if let Some(n) = b.neighbor(q, k) {
            lemma_clear_explosions_cell(b, n);
        }
    }
}

/// The board is concealed: every cell is `SecretSafe` or `SecretBomb`.
pub open spec fn concealed(b: Board) -> bool {
    forall|p: GridPos| b.contains(p) ==> (#[trigger] b.cell(p)).is_secret()
}

/// The concealed field of a start is concealed, and the first cell is one
/// of its zero cells: it is safe and has no mine beside it.
pub proof fn lemma_start_field(from: Board, draws: Seq<u64>, pick: GridPos)
    requires
        from.wf(),
        from.is_start_choice(draws, pick),
    ensures
        from.start_field(draws, pick).wf(),
        from.start_field(draws, pick).same_shape(from),
        from.start_field(draws, pick).is_zero_cell(pick),
        concealed(from.start_field(draws, pick)),
{
    let laid = from.lay(draws);
    let field = from.start_field(draws, pick);
    lemma_lay_is_concealed(from, draws, GridPos { row: 0, col: 0 });
    lemma_zero_positions(laid, pick);
    if laid.zero_positions().len() == 0 {
        lemma_clear_around_cell(laid, pick, pick);
        assert forall|k: int| 0 <= k < NEIGHBOR_COUNT implies field.mine_at(
            #[trigger] field.neighbor(pick, k),
        ) == 0 by {
            assert(field.neighbor(pick, k) == laid.neighbor(pick, k));
            lemma_neighbor_in_bounds(laid, pick, k);
            if let Some(n) = laid.neighbor(pick, k) {
                lemma_clear_around_cell(laid, pick, n);
            }
        }
        lemma_zero_count(field, pick);
    }
    assert forall|p: GridPos| field.contains(p) implies (#[trigger] field.cell(p)).is_secret() by {
        lemma_lay_is_concealed(from, draws, p);
        if laid.zero_positions().len() == 0 {
            lemma_clear_around_cell(laid, pick, p);
        }
    }
}

/// On a concealed board every move can be made, and the reveal is complete
/// because nothing is opened.
pub proof fn lemma_concealed_board(b: Board)
    requires
        b.wf(),
        concealed(b),
    ensures
        b.free_of_wrong_flags(),
        b.flooded(),
        !b.has_explosion(),
{
    assert forall|p: GridPos| b.contains(p) implies #[trigger] b.cell(p)
        != CellState::ExplodedSafe by {
        assert(b.cell(p).is_secret());
    }
    assert forall|q: GridPos, k: int|
        b.contains(q) && b.cell(q) == CellState::Opened && b.n_bombs(q) == 0 && 0 <= k
            < NEIGHBOR_COUNT implies (#[trigger] b.neighbor(q, k) matches Some(n) ==> b.cell(
        n,
    ).is_cleared()) by {
        assert(b.cell(q).is_secret());
    }
    assert forall|p: GridPos| b.contains(p) implies !(#[trigger] b.cell(p)).is_exploded() by {
        assert(b.cell(p).is_secret());
    }
}

/// Opening a zero cell of a concealed board: the cell is opened and keeps
/// the count zero, the mines stay where they are and every count with them,
/// and the opened cells are that cell and those that the flood from it
/// reaches.
pub proof fn lemma_open_zero_cell(field: Board, pick: GridPos, p: GridPos)
    requires
        field.wf(),
        concealed(field),
        field.is_zero_cell(pick),
        field.contains(p),
    ensures
        field.open(pick).cell(pick) == CellState::Opened,
        field.open(pick).n_bombs(p) == field.n_bombs(p),
        field.open(pick).cell(p) == field.cell(p) || (field.cell(p) == CellState::SecretSafe
            && field.open(pick).cell(p) == CellState::Opened),
        field.open(pick).cell(p) == CellState::Opened <==> p == pick || field.put(
            pick,
            CellState::Opened,
        ).flood_reaches(set![pick], p),
{
    let opened = field.put(pick, CellState::Opened);
    let seeds = set![pick];
    assert(field.cell(p).is_secret());
    lemma_put_cell(field, pick, CellState::Opened, pick);
    lemma_put_cell(field, pick, CellState::Opened, p);
    lemma_flood_cell(opened, seeds, pick);
    lemma_flood_cell(opened, seeds, p);
    lemma_flood_keeps_counts(opened, seeds, p);
    lemma_put_alike_keeps_count(field, pick, CellState::Opened, p);
}

/// What a start leaves, whatever the random choices were. The cell that it
/// opened is safe and has no mine beside it. No cell is flagged or exploded.
/// Every mine count is the one that the mines of the concealed field give.
/// The opened cells are the first cell and the cells that the flood from it
/// reaches, all of them safe, and the reveal is complete.
pub proof fn lemma_start(from: Board, draws: Seq<u64>, pick: GridPos)
    requires
        from.wf(),
        from.is_start_choice(draws, pick),
    ensures
        from.start_at(draws, pick).wf(),
        from.start_at(draws, pick).same_shape(from),
        from.start_field(draws, pick).is_zero_cell(pick),
        from.start_at(draws, pick).cell(pick) == CellState::Opened,
        from.start_at(draws, pick).n_bombs(pick) == 0,
        from.start_at(draws, pick).flooded(),
        from.start_at(draws, pick).freshly_started(),
        !from.start_at(draws, pick).has_explosion(),
        forall|p: GridPos|
            from.contains(p) ==> {
                let field = from.start_field(draws, pick);
                let started = from.start_at(draws, pick);
                &&& field.cell(p).is_secret()
                &&& started.n_bombs(p) == field.n_bombs(p)
                &&& started.cell(p) == field.cell(p) || (field.cell(p) == CellState::SecretSafe
                    && started.cell(p) == CellState::Opened)
                &&& started.cell(p) == CellState::Opened <==> p == pick || field.put(
                    pick,
                    CellState::Opened,
                ).flood_reaches(set![pick], p)
            },
{
    let field = from.start_field(draws, pick);
    let started = from.start_at(draws, pick);
    lemma_start_field(from, draws, pick);
    lemma_concealed_board(field);
    lemma_can_move(field, pick);
    lemma_open_keeps_flooded(field, pick);
    lemma_move_cell(field, pick, pick);
    lemma_move_explosion(field, pick);
    lemma_open_zero_cell(field, pick, pick);
    assert forall|p: GridPos| from.contains(p) implies {
        &&& field.cell(p).is_secret()
        &&& started.n_bombs(p) == field.n_bombs(p)
        &&& started.cell(p) == field.cell(p) || (field.cell(p) == CellState::SecretSafe
            && started.cell(p) == CellState::Opened)
        &&& started.cell(p) == CellState::Opened <==> p == pick || field.put(
            pick,
            CellState::Opened,
        ).flood_reaches(set![pick], p)
    } by {
        assert(field.cell(p).is_secret());
        lemma_open_zero_cell(field, pick, p);
    }
    assert(started.freshly_started()) by {
        assert(started.contains(pick) && started.cell(pick) == CellState::Opened
            && started.n_bombs(pick) == 0);
        assert forall|p: GridPos| started.contains(p) implies (#[trigger] started.cell(
            p,
        )).is_secret() || started.cell(p) == CellState::Opened by {
            assert(field.cell(p).is_secret());
            lemma_open_zero_cell(field, pick, p);
        }
    }
}

/// The number of straight steps between two cells on a bounded board.
pub open spec fn steps_between(p: GridPos, q: GridPos) -> nat {
    let rows = if p.row >= q.row {
        p.row - q.row
    } else {
        q.row - p.row
    };
    let cols = if p.col >= q.col {
        p.col - q.col
    } else {
        q.col - p.col
    };
    (rows + cols) as nat
}

/// On a board without mines on which only the cell at `pick` is opened and
/// every other cell is concealed, the flood from `pick` reaches every other
/// cell.
pub proof fn lemma_flood_without_mines(b: Board, pick: GridPos, p: GridPos)
    requires
        b.wf(),
        b.contains(pick),
        b.contains(p),
        p != pick,
        b.cell(pick) == CellState::Opened,
        forall|q: GridPos| b.contains(q) && q != pick ==> #[trigger] b.cell(q) == CellState::SecretSafe,
    ensures
        b.flood_reaches(set![pick], p),
    decreases steps_between(p, pick),
{
    lemma_dims_fit(b);
    let seeds = set![pick];
    // One straight step from `before` leads to `p`, and `before` is nearer
    // to `pick`: first along the rows, then along the columns.
    let (before, k) = if p.row > pick.row {
        (GridPos { row: (p.row - 1) as usize, col: p.col }, 1int)
    } else if p.row < pick.row {
        (GridPos { row: (p.row + 1) as usize, col: p.col }, 0int)
    } else if p.col > pick.col {
        (GridPos { row: p.row, col: (p.col - 1) as usize }, 3int)
    } else {
        (GridPos { row: p.row, col: (p.col + 1) as usize }, 2int)
    };
    assert(b.contains(before));
    assert(b.neighbor(before, k) == Some(p));
    if before != pick {
        lemma_flood_without_mines(b, pick, before);
    }
    assert(b.flood_source(seeds, before));
    assert forall|j: int| 0 <= j < NEIGHBOR_COUNT implies b.mine_at(
        #[trigger] b.neighbor(before, j),
    ) == 0 by {
        lemma_neighbor_in_bounds(b, before, j);
        if let Some(n) = b.neighbor(before, j) {
            assert(b.cell(n) == CellState::Opened || b.cell(n) == CellState::SecretSafe);
        }
    }
    lemma_zero_count(b, before);
    lemma_flood_reaches_neighbor(b, seeds, before, k, p);
}

/// A start on a board whose mine fraction is zero lays no mine and opens
/// every cell, so the board is won at once.
pub proof fn lemma_start_without_mines(from: Board, draws: Seq<u64>, pick: GridPos)
    requires
        from.wf(),
        from.fraction == 0,
        from.is_start_choice(draws, pick),
    ensures
        from.start_at(draws, pick).is_win(),
        forall|p: GridPos|
            from.contains(p) ==> #[trigger] from.start_at(draws, pick).cell(p)
                == CellState::Opened,
{
    let laid = from.lay(draws);
    let field = from.start_field(draws, pick);
    let started = from.start_at(draws, pick);
    lemma_start_field(from, draws, pick);
    assert forall|q: GridPos| from.contains(q) implies #[trigger] field.cell(q)
        == CellState::SecretSafe by {
        lemma_index_in_range(from, q);
        if laid.zero_positions().len() == 0 {
            lemma_clear_around_cell(laid, pick, q);
        }
    }
    let opened = field.put(pick, CellState::Opened);
    lemma_put_cell(field, pick, CellState::Opened, pick);
    assert forall|q: GridPos| opened.contains(q) && q != pick implies #[trigger] opened.cell(q)
        == CellState::SecretSafe by {
        lemma_put_cell(field, pick, CellState::Opened, q);
    }
    assert forall|p: GridPos| from.contains(p) implies #[trigger] started.cell(p)
        == CellState::Opened by {
        lemma_open_zero_cell(field, pick, p);
        if p != pick {
            lemma_flood_without_mines(opened, pick, p);
        }
    }
    lemma_start(from, draws, pick);
    assert forall|p: GridPos| started.contains(p) implies (#[trigger] started.cell(
        p,
    )).is_cleared() by {
        assert(started.cell(p) == CellState::Opened);
    }
}

} // verus!
