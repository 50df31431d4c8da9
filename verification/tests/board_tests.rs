use cleansweeper::{
    CellFace, CellState, ConfigError, Fill, Grid, GridPos, Topology, FRACTION_SCALE,
    NEIGHBOR_COUNT, TORUS_OVERLAP,
};

fn at(row: usize, col: usize) -> GridPos {
    GridPos { row, col }
}

fn state_of(letter: char) -> CellState {
    match letter {
        'S' => CellState::SecretSafe,
        'B' => CellState::SecretBomb,
        'F' => CellState::Flagged,
        'O' => CellState::Opened,
        'x' => CellState::ExplodedSafe,
        'X' => CellState::ExplodedBomb,
        other => panic!("no cell state is written {other}"),
    }
}

/// A grid with the cells that `rows` spell out, one letter for each cell.
fn grid_of(rows: &[&str], torus: bool) -> Grid {
    let height: usize = rows.len();
    let width: usize = rows[0].len();
    let mut grid = Grid::blank(height, width, FRACTION_SCALE / 4, torus).unwrap();
    for (row, line) in rows.iter().enumerate() {
        assert_eq!(line.len(), width);
        for (col, letter) in line.chars().enumerate() {
            grid.set(at(row, col), state_of(letter));
        }
    }
    grid
}

#[test]
fn blank_grid_is_concealed_and_safe() {
    let grid = Grid::blank(2, 3, 7, true).unwrap();
    assert_eq!(grid.height(), 2);
    assert_eq!(grid.width(), 3);
    assert_eq!(grid.fraction(), 7);
    assert_eq!(grid.cell_count(), 6);
    assert_eq!(grid.topology(), Topology::Torus);
    for pos in grid.iter_pos() {
        assert_eq!(grid.get(pos), CellState::SecretSafe);
    }
    let bounded = Grid::blank(1, 1, 0, false).unwrap();
    assert_eq!(bounded.topology(), Topology::Bounded);
}

#[test]
fn configuration_faults_are_rejected() {
    assert_eq!(Grid::blank(0, 5, 0, false).unwrap_err(), ConfigError::EmptyBoard);
    assert_eq!(Grid::blank(5, 0, 0, false).unwrap_err(), ConfigError::EmptyBoard);
    assert_eq!(
        Grid::blank(0, 0, FRACTION_SCALE + 1, false).unwrap_err(),
        ConfigError::EmptyBoard
    );
    assert_eq!(
        Grid::blank(2, 2, FRACTION_SCALE + 1, false).unwrap_err(),
        ConfigError::FractionOutOfRange
    );
    assert_eq!(
        Grid::blank(usize::MAX, 2, FRACTION_SCALE + 1, false).unwrap_err(),
        ConfigError::FractionOutOfRange
    );
    assert_eq!(Grid::blank(usize::MAX, 2, 0, false).unwrap_err(), ConfigError::TooManyCells);
    assert_eq!(Grid::new(0, 1, 0, true).unwrap_err(), ConfigError::EmptyBoard);
    assert_eq!(
        Grid::new(1, 1, u64::MAX, true).unwrap_err(),
        ConfigError::FractionOutOfRange
    );
    assert_eq!(Grid::new(2, usize::MAX, 0, true).unwrap_err(), ConfigError::TooManyCells);
    assert!(Grid::blank(2, 2, FRACTION_SCALE, false).is_ok());
    assert_eq!(ConfigError::EmptyBoard.message(), "height and width must be at least 1");
    assert_eq!(
        ConfigError::FractionOutOfRange.message(),
        "the mine fraction must be at most 1"
    );
    assert_eq!(ConfigError::TooManyCells.message(), "the board has too many cells");
}

#[test]
fn fraction_scale_is_two_to_the_fifty_third() {
    assert_eq!(FRACTION_SCALE, 9_007_199_254_740_992);
    assert_eq!(NEIGHBOR_COUNT, 8);
    assert_eq!(TORUS_OVERLAP, 3);
}

#[test]
fn set_and_get_use_row_major_places() {
    let mut grid = Grid::blank(2, 3, 0, false).unwrap();
    grid.set(at(1, 0), CellState::Flagged);
    grid.set(at(0, 2), CellState::Opened);
    let states: Vec<CellState> = grid.iter_pos().into_iter().map(|pos| grid.get(pos)).collect();
    assert_eq!(
        states,
        vec![
            CellState::SecretSafe,
            CellState::SecretSafe,
            CellState::Opened,
            CellState::Flagged,
            CellState::SecretSafe,
            CellState::SecretSafe,
        ]
    );
    assert!(grid.contains(at(1, 2)));
    assert!(!grid.contains(at(2, 0)));
    assert!(!grid.contains(at(0, 3)));
}

#[test]
fn iter_pos_is_row_major() {
    let grid = Grid::blank(2, 3, 0, false).unwrap();
    assert_eq!(
        grid.iter_pos(),
        vec![at(0, 0), at(0, 1), at(0, 2), at(1, 0), at(1, 1), at(1, 2)]
    );
    let tall = Grid::blank(3, 1, 0, true).unwrap();
    assert_eq!(tall.iter_pos(), vec![at(0, 0), at(1, 0), at(2, 0)]);
}

#[test]
fn torus_above_origin_is_last_row() {
    let torus = Grid::blank(5, 7, 0, true).unwrap();
    assert_eq!(torus.above(at(0, 0)), Some(at(4, 0)));
    let bounded = Grid::blank(5, 7, 0, false).unwrap();
    assert_eq!(bounded.above(at(0, 0)), None);
}

#[test]
fn steps_on_a_bounded_board_stop_at_the_edges() {
    let grid = Grid::blank(3, 4, 0, false).unwrap();
    assert_eq!(grid.above(at(1, 2)), Some(at(0, 2)));
    assert_eq!(grid.below(at(1, 2)), Some(at(2, 2)));
    assert_eq!(grid.left(at(1, 2)), Some(at(1, 1)));
    assert_eq!(grid.right(at(1, 2)), Some(at(1, 3)));
    assert_eq!(grid.below(at(2, 2)), None);
    assert_eq!(grid.left(at(1, 0)), None);
    assert_eq!(grid.right(at(1, 3)), None);
    assert_eq!(grid.above(at(0, 3)), None);
}

#[test]
fn steps_on_a_torus_wrap() {
    let grid = Grid::blank(3, 4, 0, true).unwrap();
    assert_eq!(grid.above(at(0, 2)), Some(at(2, 2)));
    assert_eq!(grid.below(at(2, 2)), Some(at(0, 2)));
    assert_eq!(grid.left(at(1, 0)), Some(at(1, 3)));
    assert_eq!(grid.right(at(1, 3)), Some(at(1, 0)));
    assert_eq!(grid.above(at(1, 2)), Some(at(0, 2)));
    assert_eq!(grid.right(at(1, 1)), Some(at(1, 2)));
}

#[test]
fn neighbors_come_in_the_fixed_order() {
    let grid = Grid::blank(3, 3, 0, false).unwrap();
    assert_eq!(
        grid.neighbors(at(1, 1)),
        [
            Some(at(0, 1)),
            Some(at(2, 1)),
            Some(at(1, 0)),
            Some(at(1, 2)),
            Some(at(0, 0)),
            Some(at(0, 2)),
            Some(at(2, 0)),
            Some(at(2, 2)),
        ]
    );
}

#[test]
fn neighbors_beyond_the_edge_are_absent() {
    let grid = Grid::blank(3, 3, 0, false).unwrap();
    assert_eq!(
        grid.neighbors(at(0, 0)),
        [None, Some(at(1, 0)), None, Some(at(0, 1)), None, None, None, Some(at(1, 1))]
    );
    assert_eq!(
        grid.neighbors(at(2, 1)),
        [
            Some(at(1, 1)),
            None,
            Some(at(2, 0)),
            Some(at(2, 2)),
            Some(at(1, 0)),
            Some(at(1, 2)),
            None,
            None,
        ]
    );
    let single = Grid::blank(1, 1, 0, false).unwrap();
    assert_eq!(single.neighbors(at(0, 0)), [None; 8]);
}

#[test]
fn torus_cells_always_have_eight_neighbors() {
    let grid = Grid::blank(4, 5, 0, true).unwrap();
    for pos in grid.iter_pos() {
        assert!(grid.neighbors(pos).iter().all(|n| n.is_some()));
    }
    assert_eq!(
        grid.neighbors(at(0, 0)),
        [
            Some(at(3, 0)),
            Some(at(1, 0)),
            Some(at(0, 4)),
            Some(at(0, 1)),
            Some(at(3, 4)),
            Some(at(3, 1)),
            Some(at(1, 4)),
            Some(at(1, 1)),
        ]
    );
}

#[test]
fn small_torus_has_cells_as_their_own_neighbors() {
    let single = Grid::blank(1, 1, 0, true).unwrap();
    assert_eq!(single.neighbors(at(0, 0)), [Some(at(0, 0)); 8]);
    let pair = Grid::blank(1, 2, 0, true).unwrap();
    assert_eq!(
        pair.neighbors(at(0, 0)),
        [
            Some(at(0, 0)),
            Some(at(0, 0)),
            Some(at(0, 1)),
            Some(at(0, 1)),
            Some(at(0, 1)),
            Some(at(0, 1)),
            Some(at(0, 1)),
            Some(at(0, 1)),
        ]
    );
}

#[test]
fn mine_count_counts_concealed_and_exploded_mines() {
    let grid = grid_of(&["BSX", "SSS", "FxO"], false);
    assert_eq!(grid.n_bombs(at(1, 1)), 2);
    assert_eq!(grid.n_bombs(at(0, 1)), 2);
    assert_eq!(grid.n_bombs(at(1, 0)), 1);
    assert_eq!(grid.n_bombs(at(2, 1)), 0);
    assert_eq!(grid.n_bombs(at(0, 0)), 0);
}

#[test]
fn mine_count_leaves_flagged_mines_out() {
    let mut grid = grid_of(&["BBB", "BSB", "BBB"], false);
    assert_eq!(grid.n_bombs(at(1, 1)), 8);
    grid.set(at(0, 0), CellState::Flagged);
    grid.set(at(2, 2), CellState::Flagged);
    assert_eq!(grid.n_bombs(at(1, 1)), 6);
}

#[test]
fn mine_count_on_a_small_torus_counts_a_cell_in_each_slot() {
    let single = grid_of(&["B"], true);
    assert_eq!(single.n_bombs(at(0, 0)), 8);
    let pair = grid_of(&["SB"], true);
    assert_eq!(pair.n_bombs(at(0, 0)), 6);
    assert_eq!(pair.n_bombs(at(0, 1)), 2);
}

#[test]
fn mine_count_on_a_torus_sees_across_the_edges() {
    let torus = grid_of(&["SSSS", "SSSS", "SSSS", "SSSB"], true);
    assert_eq!(torus.n_bombs(at(0, 0)), 1);
    assert_eq!(torus.n_bombs(at(3, 0)), 1);
    assert_eq!(torus.n_bombs(at(0, 3)), 1);
    assert_eq!(torus.n_bombs(at(1, 1)), 0);
    let bounded = grid_of(&["SSSS", "SSSS", "SSSS", "SSSB"], false);
    assert_eq!(bounded.n_bombs(at(0, 0)), 0);
    assert_eq!(bounded.n_bombs(at(2, 2)), 1);
}

#[test]
fn is_win_needs_every_cell_opened_or_flagged() {
    assert!(grid_of(&["OF", "FO"], false).is_win());
    assert!(!grid_of(&["OF", "FS"], false).is_win());
    assert!(!grid_of(&["OF", "FB"], false).is_win());
    assert!(!grid_of(&["OF", "Fx"], false).is_win());
    assert!(!grid_of(&["OF", "FX"], false).is_win());
}

#[test]
fn is_win_is_no_secret_left_where_nothing_exploded() {
    let letters: [char; 4] = ['S', 'B', 'F', 'O'];
    for a in letters {
        for b in letters {
            for c in letters {
                let row: String = [a, b, c].iter().collect();
                let grid = grid_of(&[row.as_str()], false);
                let secret_left = grid
                    .iter_pos()
                    .into_iter()
                    .any(|p| matches!(grid.get(p), CellState::SecretSafe | CellState::SecretBomb));
                assert!(!grid.has_explosion());
                assert_eq!(grid.is_win(), !secret_left);
            }
        }
    }
}

#[test]
fn has_explosion_sees_both_kinds() {
    assert!(!grid_of(&["SBFO"], false).has_explosion());
    assert!(grid_of(&["SBFx"], false).has_explosion());
    assert!(grid_of(&["XBFO"], false).has_explosion());
}

#[test]
fn clear_explosions_conceals_exploded_cells_again() {
    let mut grid = grid_of(&["SBF", "OxX"], true);
    grid.clear_explosions();
    assert_eq!(grid, grid_of(&["SBF", "OSB"], true));
    grid.clear_explosions();
    assert_eq!(grid, grid_of(&["SBF", "OSB"], true));
}

#[test]
fn cell_state_helpers_tell_the_states_apart() {
    assert!(CellState::SecretBomb.holds_mine());
    assert!(CellState::ExplodedBomb.holds_mine());
    assert!(!CellState::Flagged.holds_mine());
    assert!(!CellState::SecretSafe.holds_mine());
    assert!(CellState::Opened.cleared());
    assert!(CellState::Flagged.cleared());
    assert!(!CellState::ExplodedSafe.cleared());
    assert!(CellState::ExplodedSafe.exploded());
    assert!(CellState::ExplodedBomb.exploded());
    assert!(!CellState::SecretBomb.exploded());
    assert_eq!(CellState::ExplodedBomb.concealed_again(), CellState::SecretBomb);
    assert_eq!(CellState::ExplodedSafe.concealed_again(), CellState::SecretSafe);
    assert_eq!(CellState::Flagged.concealed_again(), CellState::Flagged);
    assert_eq!(CellState::Opened.concealed_again(), CellState::Opened);
}

#[test]
fn draw_below_the_fraction_is_a_mine() {
    assert_eq!(CellState::from_draw(0, 1), CellState::SecretBomb);
    assert_eq!(CellState::from_draw(1, 1), CellState::SecretSafe);
    assert_eq!(CellState::from_draw(0, 0), CellState::SecretSafe);
    assert_eq!(
        CellState::from_draw(FRACTION_SCALE - 1, FRACTION_SCALE),
        CellState::SecretBomb
    );
    assert_eq!(
        CellState::from_draw(FRACTION_SCALE / 4, FRACTION_SCALE / 4),
        CellState::SecretSafe
    );
    assert_eq!(
        CellState::from_draw(FRACTION_SCALE / 4 - 1, FRACTION_SCALE / 4),
        CellState::SecretBomb
    );
}

#[test]
fn picture_of_a_bounded_board_is_the_board() {
    let grid = Grid::blank(4, 6, 0, false).unwrap();
    assert_eq!(grid.visual_height(), 4);
    assert_eq!(grid.visual_width(), 6);
    assert_eq!(grid.visual_pos(3, 5), Some(at(3, 5)));
    assert_eq!(grid.visual_pos(4, 5), None);
    assert_eq!(grid.visual_pos(3, 6), None);
    assert_eq!(grid.visual_pos(usize::MAX, 0), None);
}

#[test]
fn picture_of_a_torus_repeats_the_first_rows_and_columns() {
    let grid = Grid::blank(4, 6, 0, true).unwrap();
    assert_eq!(grid.visual_height(), 7);
    assert_eq!(grid.visual_width(), 9);
    assert_eq!(grid.visual_pos(3, 5), Some(at(3, 5)));
    assert_eq!(grid.visual_pos(4, 5), Some(at(0, 5)));
    assert_eq!(grid.visual_pos(6, 8), Some(at(2, 2)));
    assert_eq!(grid.visual_pos(2, 7), Some(at(2, 1)));
    assert_eq!(grid.visual_pos(7, 0), None);
    assert_eq!(grid.visual_pos(0, 9), None);
    assert_eq!(grid.visual_pos(usize::MAX, usize::MAX), None);
    let small = Grid::blank(1, 2, 0, true).unwrap();
    assert_eq!(small.visual_height(), 4);
    assert_eq!(small.visual_pos(3, 4), Some(at(0, 0)));
    assert_eq!(small.visual_pos(3, 3), Some(at(0, 1)));
    assert_eq!(small.visual_pos(4, 0), None);
}

#[test]
fn face_shows_the_count_on_opened_cells_only() {
    let grid = grid_of(&["OBS", "OFx", "OOX"], false);
    assert_eq!(grid.face(at(0, 0)), CellFace { fill: Fill::Opened, number: Some(1) });
    assert_eq!(grid.face(at(1, 0)), CellFace { fill: Fill::Opened, number: Some(1) });
    assert_eq!(grid.face(at(2, 0)), CellFace { fill: Fill::Opened, number: None });
    assert_eq!(grid.face(at(2, 1)), CellFace { fill: Fill::Opened, number: Some(1) });
    assert_eq!(grid.face(at(0, 1)), CellFace { fill: Fill::Hidden, number: None });
    assert_eq!(grid.face(at(0, 2)), CellFace { fill: Fill::Hidden, number: None });
    assert_eq!(grid.face(at(1, 1)), CellFace { fill: Fill::Flagged, number: None });
    assert_eq!(grid.face(at(1, 2)), CellFace { fill: Fill::Exploded, number: None });
    assert_eq!(grid.face(at(2, 2)), CellFace { fill: Fill::Exploded, number: None });
    assert_eq!(CellState::SecretBomb.ground(), Fill::Hidden);
}

#[test]
fn snapshot_tells_whether_the_board_changed() {
    let mut grid = grid_of(&["SBS", "SSS"], true);
    let before = grid.snapshot();
    assert_eq!(before, grid);
    assert!(grid.same_as(&before));
    assert!(grid.open(at(0, 1)));
    assert!(!grid.same_as(&before));
    assert!(!before.same_as(&grid));
    grid.clear_explosions();
    assert!(grid.same_as(&before));
    assert!(!grid.flag(at(0, 1)));
    assert!(!grid.same_as(&before));
    assert_eq!(before, grid_of(&["SBS", "SSS"], true));
    grid.set(at(0, 1), CellState::SecretBomb);
    assert!(!grid.same_as(&grid_of(&["SBS", "SSS"], false)));
    assert!(!grid.same_as(&grid_of(&["SB", "SS", "SS"], true)));
    let other_fraction = Grid::blank(2, 3, 1, true).unwrap();
    let blank = Grid::blank(2, 3, 2, true).unwrap();
    assert!(!blank.same_as(&other_fraction));
    assert!(blank.same_as(&Grid::blank(2, 3, 2, true).unwrap()));
}
