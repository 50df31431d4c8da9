use cleansweeper::{AppData, Button, CellState, GameOver, Grid, GridPos, FRACTION_SCALE};

fn at(row: usize, col: usize) -> GridPos {
    GridPos { row, col }
}

fn count_of(grid: &Grid, state: CellState) -> usize {
    grid.iter_pos().into_iter().filter(|p| grid.get(*p) == state).count()
}

/// What holds of every grid right after a start.
fn check_fresh_start(grid: &Grid) {
    let mut zero_opened: usize = 0;
    for pos in grid.iter_pos() {
        let state = grid.get(pos);
        assert!(matches!(
            state,
            CellState::SecretSafe | CellState::SecretBomb | CellState::Opened
        ));
        let recount: usize = grid
            .neighbors(pos)
            .into_iter()
            .flatten()
            .filter(|n| grid.get(*n) == CellState::SecretBomb)
            .count();
        assert_eq!(grid.n_bombs(pos), recount);
        if state == CellState::Opened && grid.n_bombs(pos) == 0 {
            zero_opened += 1;
            for n in grid.neighbors(pos).into_iter().flatten() {
                assert_eq!(grid.get(n), CellState::Opened);
            }
        }
        if state == CellState::Opened && grid.n_bombs(pos) > 0 {
            assert!(grid
                .neighbors(pos)
                .into_iter()
                .flatten()
                .any(|n| grid.get(n) == CellState::Opened && grid.n_bombs(n) == 0));
        }
    }
    assert!(zero_opened >= 1);
    assert!(!grid.has_explosion());
}

#[test]
fn single_cell_without_mines_is_won_at_once() {
    let grid = Grid::new(1, 1, 0, false).unwrap();
    assert_eq!(grid.get(at(0, 0)), CellState::Opened);
    assert!(grid.is_win());
    let mut data = AppData::new(grid, false);
    assert_eq!(data.status(), GameOver::Ongoing);
    data.click(Button::Other, None);
    assert_eq!(data.status(), GameOver::Win);
}

#[test]
fn board_without_mines_is_opened_whole() {
    for torus in [false, true] {
        let grid = Grid::new(5, 7, 0, torus).unwrap();
        assert_eq!(count_of(&grid, CellState::Opened), 35);
        assert!(grid.is_win());
    }
}

#[test]
fn fresh_start_opens_a_cell_without_mines_around() {
    for round in 0..40 {
        let torus: bool = round % 2 == 0;
        let grid = Grid::new(16, 16, FRACTION_SCALE / 4, torus).unwrap();
        assert_eq!(grid.height(), 16);
        assert_eq!(grid.width(), 16);
        assert_eq!(grid.fraction(), FRACTION_SCALE / 4);
        check_fresh_start(&grid);
    }
}

#[test]
fn fresh_start_on_dense_and_small_boards() {
    for height in 1..5 {
        for width in 1..5 {
            for torus in [false, true] {
                for fraction in [FRACTION_SCALE / 2, FRACTION_SCALE - 1, FRACTION_SCALE] {
                    let grid = Grid::new(height, width, fraction, torus).unwrap();
                    check_fresh_start(&grid);
                }
            }
        }
    }
}

#[test]
fn full_mine_fraction_lays_mines_outside_the_cleared_region() {
    let grid = Grid::new(6, 6, FRACTION_SCALE, false).unwrap();
    let opened: usize = count_of(&grid, CellState::Opened);
    let mines: usize = count_of(&grid, CellState::SecretBomb);
    assert!(opened >= 4 && opened <= 9);
    assert_eq!(opened + mines, 36);
    assert!(mines >= 27);
    check_fresh_start(&grid);
}

#[test]
fn full_mine_fraction_on_a_small_torus_clears_the_whole_board() {
    let grid = Grid::new(3, 3, FRACTION_SCALE, true).unwrap();
    assert_eq!(count_of(&grid, CellState::Opened), 9);
    assert!(grid.is_win());
}

#[test]
fn mine_density_follows_the_fraction() {
    let mut mines: usize = 0;
    for _ in 0..20 {
        let grid = Grid::new(30, 30, FRACTION_SCALE / 4, false).unwrap();
        mines += count_of(&grid, CellState::SecretBomb);
    }
    assert!(mines > 18000 / 8);
    assert!(mines < 18000 * 3 / 8);
}

#[test]
fn restart_discards_the_old_game() {
    let mut grid = Grid::new(8, 8, FRACTION_SCALE / 5, true).unwrap();
    for pos in grid.iter_pos() {
        grid.set(pos, CellState::ExplodedSafe);
    }
    grid.start();
    check_fresh_start(&grid);
    assert_eq!(grid.height(), 8);
    assert_eq!(grid.fraction(), FRACTION_SCALE / 5);
}

#[test]
fn restart_resets_the_status() {
    let mut data = AppData::new(Grid::new(6, 6, FRACTION_SCALE / 3, false).unwrap(), false);
    let mine = data
        .grid()
        .iter_pos()
        .into_iter()
        .find(|p| data.cell_state(*p) == CellState::SecretBomb);
    if let Some(pos) = mine {
        assert!(data.open(pos));
        assert_eq!(data.status(), GameOver::Loss);
    }
    data.restart();
    assert_eq!(data.status(), GameOver::Ongoing);
    assert!(!data.easy_mode());
    assert_eq!(data.dimensions(), (6, 6));
    check_fresh_start(data.grid());

    let mut won = AppData::new(Grid::new(2, 2, 0, false).unwrap(), true);
    won.click(Button::Other, None);
    assert_eq!(won.status(), GameOver::Win);
    won.restart();
    assert_eq!(won.status(), GameOver::Ongoing);
    assert!(won.easy_mode());
}

#[test]
fn correct_play_after_a_start_wins() {
    for round in 0..10 {
        let torus: bool = round % 2 == 1;
        let mut data = AppData::new(Grid::new(9, 9, FRACTION_SCALE / 6, torus).unwrap(), false);
        for pos in data.grid().iter_pos() {
            let exploded = match data.cell_state(pos) {
                CellState::SecretBomb => data.flag(pos),
                CellState::SecretSafe => data.open(pos),
                _ => false,
            };
            assert!(!exploded);
        }
        data.click(Button::Other, None);
        assert_eq!(data.status(), GameOver::Win);
        assert!(data.grid().is_win());
    }
}

#[test]
fn lay_mines_follows_the_draws() {
    let mut grid = Grid::blank(2, 3, 10, false).unwrap();
    grid.set(at(0, 0), CellState::Opened);
    grid.set(at(1, 2), CellState::ExplodedBomb);
    let draws: Vec<u64> = vec![9, 10, 0, FRACTION_SCALE - 1, 11, 5];
    grid.lay_mines(&draws);
    let states: Vec<CellState> = grid.iter_pos().into_iter().map(|p| grid.get(p)).collect();
    assert_eq!(
        states,
        vec![
            CellState::SecretBomb,
            CellState::SecretSafe,
            CellState::SecretBomb,
            CellState::SecretSafe,
            CellState::SecretSafe,
            CellState::SecretBomb,
        ]
    );
}

#[test]
fn lay_mines_with_fraction_zero_or_one() {
    let draws: Vec<u64> = vec![0, 1, FRACTION_SCALE / 2, FRACTION_SCALE - 1];
    let mut none = Grid::blank(2, 2, 0, false).unwrap();
    none.lay_mines(&draws);
    assert_eq!(count_of(&none, CellState::SecretSafe), 4);
    let mut all = Grid::blank(2, 2, FRACTION_SCALE, false).unwrap();
    all.lay_mines(&draws);
    assert_eq!(count_of(&all, CellState::SecretBomb), 4);
}

#[test]
fn zero_positions_are_the_safe_cells_without_mines_around() {
    let mut grid = Grid::blank(3, 4, 1, false).unwrap();
    let draws: Vec<u64> = vec![0, 1, 1, 1, 1, 1, 1, 1, 1, 1, 1, 1];
    grid.lay_mines(&draws);
    assert_eq!(
        grid.zero_positions(),
        vec![at(0, 2), at(0, 3), at(1, 2), at(1, 3), at(2, 0), at(2, 1), at(2, 2), at(2, 3)]
    );
    grid.set(at(2, 3), CellState::Opened);
    grid.set(at(0, 0), CellState::Flagged);
    assert_eq!(
        grid.zero_positions(),
        vec![
            at(0, 1),
            at(0, 2),
            at(0, 3),
            at(1, 0),
            at(1, 1),
            at(1, 2),
            at(1, 3),
            at(2, 0),
            at(2, 1),
            at(2, 2),
        ]
    );
    let mut torus = Grid::blank(3, 3, 1, true).unwrap();
    torus.lay_mines(&vec![0, 1, 1, 1, 1, 1, 1, 1, 1]);
    assert!(torus.zero_positions().is_empty());
}

#[test]
fn clear_around_makes_a_cell_and_its_neighbors_safe() {
    let mut grid = Grid::blank(4, 4, FRACTION_SCALE, false).unwrap();
    grid.lay_mines(&vec![0; 16]);
    grid.clear_around(at(0, 0));
    let safe: Vec<GridPos> =
        grid.iter_pos().into_iter().filter(|p| grid.get(*p) == CellState::SecretSafe).collect();
    assert_eq!(safe, vec![at(0, 0), at(0, 1), at(1, 0), at(1, 1)]);
    assert_eq!(count_of(&grid, CellState::SecretBomb), 12);

    let mut torus = Grid::blank(4, 4, FRACTION_SCALE, true).unwrap();
    torus.lay_mines(&vec![0; 16]);
    torus.set(at(3, 3), CellState::Flagged);
    torus.set(at(2, 2), CellState::Opened);
    torus.clear_around(at(0, 0));
    let cleared: Vec<GridPos> =
        torus.iter_pos().into_iter().filter(|p| torus.get(*p) == CellState::SecretSafe).collect();
    assert_eq!(
        cleared,
        vec![
            at(0, 0),
            at(0, 1),
            at(0, 3),
            at(1, 0),
            at(1, 1),
            at(1, 3),
            at(3, 0),
            at(3, 1),
            at(3, 3),
        ]
    );
    assert_eq!(torus.get(at(2, 2)), CellState::Opened);
}

#[test]
fn a_start_made_by_hand_opens_the_picked_zero_cell() {
    let mut grid = Grid::blank(3, 3, 1, false).unwrap();
    grid.lay_mines(&vec![1, 1, 1, 1, 1, 1, 1, 1, 0]);
    let zeros = grid.zero_positions();
    assert_eq!(zeros, vec![at(0, 0), at(0, 1), at(0, 2), at(1, 0), at(2, 0)]);
    assert!(!grid.open(zeros[4]));
    let opened: Vec<GridPos> =
        grid.iter_pos().into_iter().filter(|p| grid.get(*p) == CellState::Opened).collect();
    assert_eq!(
        opened,
        vec![at(0, 0), at(0, 1), at(0, 2), at(1, 0), at(1, 1), at(1, 2), at(2, 0), at(2, 1)]
    );
    assert_eq!(grid.get(at(2, 2)), CellState::SecretBomb);
    check_fresh_start(&grid);
}

#[test]
fn a_start_made_by_hand_without_zero_cells_clears_first() {
    let mut grid = Grid::blank(4, 4, FRACTION_SCALE, false).unwrap();
    grid.lay_mines(&vec![0; 16]);
    assert!(grid.zero_positions().is_empty());
    grid.clear_around(at(3, 3));
    assert!(!grid.open(at(3, 3)));
    let opened: Vec<GridPos> =
        grid.iter_pos().into_iter().filter(|p| grid.get(*p) == CellState::Opened).collect();
    assert_eq!(opened, vec![at(2, 2), at(2, 3), at(3, 2), at(3, 3)]);
    assert_eq!(grid.n_bombs(at(3, 3)), 0);
    assert_eq!(grid.n_bombs(at(2, 2)), 5);
    check_fresh_start(&grid);
}
