use cartographer::config::{Config, GridConfig};
use cartographer::grid::{Cell, CellSpan, Grid, SelectionAction, SelectionState};
use cartographer::time::{TimeSpan, Timestamp};

fn grid() -> Grid {
    Grid::default_4x3()
}

/// An arbitrary point of the clock to start from.
fn start() -> Timestamp {
    Timestamp::from_nanos(7_250_000_000)
}

fn later(t: Timestamp, millis: u64) -> Timestamp {
    t.after(TimeSpan::from_millis(millis))
}

#[test]
fn keycode_q_maps_to_top_left() {
    assert_eq!(grid().cell_for_keycode(12), Some(Cell { col: 0, row: 0 }));
}

#[test]
fn keycode_v_maps_to_bottom_right() {
    assert_eq!(grid().cell_for_keycode(9), Some(Cell { col: 3, row: 2 }));
}

#[test]
fn keycode_s_maps_to_middle() {
    assert_eq!(grid().cell_for_keycode(1), Some(Cell { col: 1, row: 1 }));
}

#[test]
fn invalid_keycode_returns_none() {
    assert_eq!(grid().cell_for_keycode(5), None); // G
    assert_eq!(grid().cell_for_keycode(53), None); // Escape
}

#[test]
fn all_twelve_keys_map_correctly() {
    let g = grid();
    let expected = vec![
        (12, 0, 0), (13, 1, 0), (14, 2, 0), (15, 3, 0),
        (0, 0, 1), (1, 1, 1), (2, 2, 1), (3, 3, 1),
        (6, 0, 2), (7, 1, 2), (8, 2, 2), (9, 3, 2),
    ];
    for (kc, col, row) in expected {
        assert_eq!(
            g.cell_for_keycode(kc),
            Some(Cell { col, row }),
            "keycode {kc} should map to ({col}, {row})"
        );
    }
}

#[test]
fn first_key_enters_first_selected() {
    let g = grid();
    let mut state = SelectionState::new();
    let now = start();
    let action = state.advance(12, &g, now);
    assert_eq!(action, SelectionAction::FirstSelected(Cell { col: 0, row: 0 }));
}

#[test]
fn two_keys_within_timeout_produces_tile() {
    let g = grid();
    let mut state = SelectionState::new();
    let now = start();
    state.advance(12, &g, now);
    let action = state.advance(3, &g, later(now, 500));
    assert_eq!(action, SelectionAction::Tile(Cell { col: 0, row: 0 }, Cell { col: 3, row: 1 }));
}

#[test]
fn same_key_twice_produces_single_cell_tile() {
    let g = grid();
    let mut state = SelectionState::new();
    let now = start();
    state.advance(12, &g, now);
    let action = state.advance(12, &g, later(now, 100));
    assert_eq!(action, SelectionAction::Tile(Cell { col: 0, row: 0 }, Cell { col: 0, row: 0 }));
}

#[test]
fn timeout_resets_to_new_first_selection() {
    let g = grid();
    let mut state = SelectionState::new();
    let now = start();
    state.advance(12, &g, now);
    let action = state.advance(3, &g, later(now, 1001));
    assert_eq!(action, SelectionAction::FirstSelected(Cell { col: 3, row: 1 }));
}

#[test]
fn timeout_at_exact_boundary_resets() {
    let g = grid();
    let mut state = SelectionState::new();
    let now = start();
    state.advance(12, &g, now);
    let action = state.advance(3, &g, now.after(TimeSpan::from_secs(1)));
    assert_eq!(action, SelectionAction::FirstSelected(Cell { col: 3, row: 1 }));
}

#[test]
fn invalid_key_is_ignored() {
    let g = grid();
    let mut state = SelectionState::new();
    let action = state.advance(5, &g, start());
    assert_eq!(action, SelectionAction::Ignored);
}

#[test]
fn invalid_key_does_not_affect_first_selection() {
    let g = grid();
    let mut state = SelectionState::new();
    let now = start();
    state.advance(12, &g, now);
    state.advance(5, &g, later(now, 200)); // garbage key, ignored
    let action = state.advance(3, &g, later(now, 400));
    assert_eq!(action, SelectionAction::Tile(Cell { col: 0, row: 0 }, Cell { col: 3, row: 1 }));
}

#[test]
fn check_timeout_clears_state() {
    let g = Grid::default_4x3();
    let mut state = SelectionState::new();
    let now = start();
    state.advance(12, &g, now);
    assert!(!state.check_timeout(later(now, 500), &g));
    assert!(state.check_timeout(later(now, 1001), &g));
}

#[test]
fn reset_clears_state() {
    let mut state = SelectionState::new();
    let now = start();
    let g = Grid::default_4x3();
    state.advance(12, &g, now);
    state.reset();
    let action = state.advance(3, &g, later(now, 100));
    assert_eq!(action, SelectionAction::FirstSelected(Cell { col: 3, row: 1 }));
}

// -- the bounding box of two cells --

#[test]
fn single_cell_span() {
    let s = grid().cell_span(Cell { col: 0, row: 0 }, Cell { col: 0, row: 0 });
    assert_eq!(s, CellSpan { first_col: 0, first_row: 0, col_count: 1, row_count: 1 });
}

#[test]
fn full_grid_span() {
    let s = grid().cell_span(Cell { col: 0, row: 0 }, Cell { col: 3, row: 2 });
    assert_eq!(s, CellSpan { first_col: 0, first_row: 0, col_count: 4, row_count: 3 });
}

#[test]
fn span_order_independent() {
    let a = Cell { col: 0, row: 0 };
    let b = Cell { col: 3, row: 1 };
    assert_eq!(grid().cell_span(a, b), grid().cell_span(b, a));
    let c = Cell { col: 2, row: 0 };
    let d = Cell { col: 1, row: 2 };
    assert_eq!(grid().cell_span(c, d), CellSpan { first_col: 1, first_row: 0, col_count: 2, row_count: 3 });
    assert_eq!(grid().cell_span(d, c), grid().cell_span(c, d));
}

#[test]
fn top_row_and_left_column_spans() {
    let top = grid().cell_span(Cell { col: 0, row: 0 }, Cell { col: 3, row: 0 });
    assert_eq!(top, CellSpan { first_col: 0, first_row: 0, col_count: 4, row_count: 1 });
    let left = grid().cell_span(Cell { col: 0, row: 0 }, Cell { col: 0, row: 2 });
    assert_eq!(left, CellSpan { first_col: 0, first_row: 0, col_count: 1, row_count: 3 });
}

// -- grids built from a configuration --

#[test]
fn grid_from_default_config_matches_default_grid() {
    let g = Grid::from_config(&GridConfig::default()).unwrap();
    let d = Grid::default_4x3();
    assert_eq!(g.cols, 4);
    assert_eq!(g.rows, 3);
    assert_eq!(g.keycode_map, d.keycode_map);
    assert_eq!(g.selection_timeout, d.selection_timeout);
}

#[test]
fn grid_from_config_refuses_duplicate_keys() {
    let gc = GridConfig {
        keys: vec![vec!["q".to_string(), "Q".to_string()]],
        ..GridConfig::default()
    };
    assert!(Grid::from_config(&gc).is_err());
}

#[test]
fn keys_outside_the_grid_select_nothing() {
    // a layout wider than the grid: its extra column is never selected
    let gc = GridConfig {
        cols: 1,
        rows: 1,
        keys: vec![vec!["a".to_string(), "b".to_string()]],
        selection_timeout_ms: 500,
    };
    let g = Grid::from_config(&gc).unwrap();
    assert_eq!(g.cell_for_keycode(0), Some(Cell { col: 0, row: 0 }));
    assert_eq!(g.cell_for_keycode(11), None);
}

#[test]
fn every_key_of_a_custom_layout_selects_its_cell() {
    let config = Config {
        grid: GridConfig {
            cols: 2,
            rows: 2,
            keys: vec![vec!["h".to_string(), "j".to_string()], vec!["k".to_string(), "l".to_string()]],
            selection_timeout_ms: 800,
        },
        ..Config::default()
    };
    let g = Grid::from_config(&config.grid).unwrap();
    assert_eq!(g.cell_for_keycode(4), Some(Cell { col: 0, row: 0 }));
    assert_eq!(g.cell_for_keycode(38), Some(Cell { col: 1, row: 0 }));
    assert_eq!(g.cell_for_keycode(40), Some(Cell { col: 0, row: 1 }));
    assert_eq!(g.cell_for_keycode(37), Some(Cell { col: 1, row: 1 }));
    // the custom timeout is used
    let mut state = SelectionState::new();
    let now = start();
    state.advance(4, &g, now);
    assert_eq!(state.advance(37, &g, later(now, 799)), SelectionAction::Tile(Cell { col: 0, row: 0 }, Cell { col: 1, row: 1 }));
    state.advance(4, &g, now);
    assert_eq!(state.advance(37, &g, later(now, 800)), SelectionAction::FirstSelected(Cell { col: 1, row: 1 }));
}

#[test]
fn clock_running_backwards_counts_as_no_time() {
    let g = grid();
    let mut state = SelectionState::new();
    let now = start();
    state.advance(12, &g, later(now, 5000));
    assert_eq!(state.advance(9, &g, now), SelectionAction::Tile(Cell { col: 0, row: 0 }, Cell { col: 3, row: 2 }));
}
