//! The grid of cells, the key of each cell, and the two-key selection that
//! picks the rectangle a window is tiled to.

use vstd::prelude::*;

use crate::config::{
    grid_entries, key_rows, law_keycode_map_matches_keys, law_valid_config_shape, layout_map,
    lemma_entry_is_key, lemma_entry_of_key, validation_of, Config, ConfigError, ConfigFault, GridConfig,
};
use crate::keys::key_code;
use crate::time::{elapsed_nanos, TimeSpan, Timestamp};

verus! {

/// A cell of the grid, by column and row from the top left.
#[derive(Clone, Copy, Debug, PartialEq, Eq, Structural)]
pub struct Cell {
    pub col: usize,
    pub row: usize,
}

/// The grid: its size, the keycode of each cell, and how long a first
/// selection waits for the second key.
pub struct Grid {
    pub cols: usize,
    pub rows: usize,
    pub keycode_map: Vec<(u16, usize, usize)>,
    pub selection_timeout: TimeSpan,
}

/// What a key press did to the selection.
#[derive(Clone, Copy, Debug, PartialEq, Eq, Structural)]
pub enum SelectionAction {
    /// The cell is the first corner of a new selection.
    FirstSelected(Cell),
    /// The two cells are the corners of the rectangle to tile to.
    Tile(Cell, Cell),
    /// The key is no cell of the grid.
    Ignored,
}

/// How far a selection has come.
#[derive(Clone, Copy, Debug, PartialEq, Eq, Structural)]
pub enum SelectionState {
    Empty,
    FirstSelected { cell: Cell, selected_at: Timestamp },
}

/// The columns and rows that the bounding box of two cells spans.
#[derive(Clone, Copy, Debug, PartialEq, Eq, Structural)]
pub struct CellSpan {
    pub first_col: usize,
    pub first_row: usize,
    pub col_count: usize,
    pub row_count: usize,
}

/// The (keycode, column, row) map of the default 4x3 grid on
/// Q W E R / A S D F / Z X C V.
pub open spec fn default_key_map() -> Seq<(u16, usize, usize)> {
    seq![
        (12u16, 0usize, 0usize), (13u16, 1usize, 0usize), (14u16, 2usize, 0usize), (15u16, 3usize, 0usize),
        (0u16, 0usize, 1usize), (1u16, 1usize, 1usize), (2u16, 2usize, 1usize), (3u16, 3usize, 1usize),
        (6u16, 0usize, 2usize), (7u16, 1usize, 2usize), (8u16, 2usize, 2usize), (9u16, 3usize, 2usize),
    ]
}

/// The cell of the first entry of the map that has the keycode and lies
/// inside a grid of `cols` by `rows`.
pub open spec fn cell_in_map(map: Seq<(u16, usize, usize)>, cols: usize, rows: usize, keycode: u16) -> Option<Cell>
    decreases map.len(),
{
    if map.len() == 0 {
        None
    } else if map[0].0 == keycode && map[0].1 < cols && map[0].2 < rows {
        Some(Cell { col: map[0].1, row: map[0].2 })
    } else {
        cell_in_map(map.drop_first(), cols, rows, keycode)
    }
}

/// Whether `timeout` has passed from `since` to `now`.
pub open spec fn timed_out(now: Timestamp, since: Timestamp, timeout: TimeSpan) -> bool {
    elapsed_nanos(now, since) >= timeout.nanos
}

/// The state and action after a key press whose cell is `cell` (none for a
/// key outside the grid) at `now`.
pub open spec fn next_selection(
    state: SelectionState,
    cell: Option<Cell>,
    timeout: TimeSpan,
    now: Timestamp,
) -> (SelectionState, SelectionAction) {
    match cell {
        None => (state, SelectionAction::Ignored),
        Some(c) => match state {
            SelectionState::Empty => (
                SelectionState::FirstSelected { cell: c, selected_at: now },
                SelectionAction::FirstSelected(c),
            ),
            SelectionState::FirstSelected { cell: first, selected_at } => if timed_out(
                now,
                selected_at,
                timeout,
            ) {
                (
                    SelectionState::FirstSelected { cell: c, selected_at: now },
                    SelectionAction::FirstSelected(c),
                )
            } else {
                (SelectionState::Empty, SelectionAction::Tile(first, c))
            },
        },
    }
}

/// The state after a timeout check at `now`, and whether it cleared a
/// first selection.
pub open spec fn expire_selection(state: SelectionState, timeout: TimeSpan, now: Timestamp) -> (
    SelectionState,
    bool,
) {
    match state {
        SelectionState::FirstSelected { selected_at, .. } => if timed_out(now, selected_at, timeout) {
            (SelectionState::Empty, true)
        } else {
            (state, false)
        },
        SelectionState::Empty => (state, false),
    }
}

/// The smaller of two indices.
pub open spec fn min_of(a: usize, b: usize) -> usize {
    if a <= b {
        a
    } else {
        b
    }
}

/// The larger of two indices.
pub open spec fn max_of(a: usize, b: usize) -> usize {
    if a <= b {
        b
    } else {
        a
    }
}

/// The span of the bounding box of two cells.
pub open spec fn span_of(a: Cell, b: Cell) -> CellSpan {
    CellSpan {
        first_col: min_of(a.col, b.col),
        first_row: min_of(a.row, b.row),
        col_count: (max_of(a.col, b.col) - min_of(a.col, b.col) + 1) as usize,
        row_count: (max_of(a.row, b.row) - min_of(a.row, b.row) + 1) as usize,
    }
}

/// Whether a cell lies inside a span.
pub open spec fn span_holds(s: CellSpan, c: Cell) -> bool {
    s.first_col <= c.col < s.first_col + s.col_count && s.first_row <= c.row < s.first_row
        + s.row_count
}

/// The span of two cells can be computed without overflow.
pub open spec fn span_fits(a: Cell, b: Cell) -> bool {
    max_of(a.col, b.col) - min_of(a.col, b.col) < usize::MAX && max_of(a.row, b.row) - min_of(
        a.row,
        b.row,
    ) < usize::MAX
}

impl Grid {
    /// The (keycode, column, row) entries of the grid, in lookup order.
    pub open spec fn key_map(&self) -> Seq<(u16, usize, usize)> {
        self.keycode_map@
    }

    /// The cell that a keycode selects.
    pub open spec fn cell_of(&self, keycode: u16) -> Option<Cell> {
        cell_in_map(self.key_map(), self.cols, self.rows, keycode)
    }

    /// The 4x3 grid on Q W E R / A S D F / Z X C V with a one-second
    /// selection timeout.
    pub fn default_4x3() -> (r: Self)
        ensures
            r.cols == 4,
            r.rows == 3,
            r.key_map() == default_key_map(),
            r.selection_timeout.nanos == 1_000_000_000,
    {
        let r = Grid {
            cols: 4,
            rows: 3,
            keycode_map: vec![
                (12, 0, 0),
                (13, 1, 0),
                (14, 2, 0),
                (15, 3, 0),
                (0, 0, 1),
                (1, 1, 1),
                (2, 2, 1),
                (3, 3, 1),
                (6, 0, 2),
                (7, 1, 2),
                (8, 2, 2),
                (9, 3, 2),
            ],
            selection_timeout: TimeSpan::from_secs(1),
        };
        assert(r.keycode_map@ =~= default_key_map());
        r
    }

    /// The grid of a configuration: its size, the keycode map of its key
    /// layout, and its selection timeout. Refused where the key layout is.
    pub fn from_config(config: &GridConfig) -> (r: Result<Self, ConfigError>)
        ensures
            match r {
                Ok(g) => {
                    &&& layout_map(config.keys@) == Ok::<Seq<(u16, usize, usize)>, ConfigFault>(
                        g.key_map(),
                    )
                    &&& g.cols == config.cols
                    &&& g.rows == config.rows
                    &&& g.selection_timeout.nanos == config.selection_timeout_ms * 1_000_000
                },
                Err(e) => layout_map(config.keys@) == Err::<Seq<(u16, usize, usize)>, ConfigFault>(
                    e@,
                ),
            },
    {
        let map = match config.build_keycode_map() {
            Ok(m) => m,
            Err(e) => {
                return Err(e);
            },
        };
        Ok(
            Grid {
                cols: config.cols,
                rows: config.rows,
                keycode_map: map,
                selection_timeout: config.selection_timeout(),
            },
        )
    }

    /// The cell of the first entry with the keycode that lies inside the
    /// grid.
    pub fn cell_for_keycode(&self, keycode: u16) -> (r: Option<Cell>)
        ensures
            r == self.cell_of(keycode),
    {
        let ghost map = self.keycode_map@;
        let mut i: usize = 0;
        assert(map.skip(0) =~= map);
        while i < self.keycode_map.len()
            invariant
                i <= map.len(),
                map == self.keycode_map@,
                cell_in_map(map, self.cols, self.rows, keycode) == cell_in_map(
                    map.skip(i as int),
                    self.cols,
                    self.rows,
                    keycode,
                ),
            decreases map.len() - i,
        {
            let (kc, col, row): (u16, usize, usize) = self.keycode_map[i];
            assert(map.skip(i as int).drop_first() =~= map.skip(i + 1));
            if kc == keycode && col < self.cols && row < self.rows {
                return Some(Cell { col, row });
            }
            i = i + 1;
        }
        None
    }

    /// The columns and rows of the bounding box of two cells, in either
    /// order.
    pub fn cell_span(&self, a: Cell, b: Cell) -> (r: CellSpan)
        requires
            span_fits(a, b),
        ensures
            r == span_of(a, b),
    {
        let min_col = if a.col <= b.col {
            a.col
        } else {
            b.col
        };
        let max_col = if a.col <= b.col {
            b.col
        } else {
            a.col
        };
        let min_row = if a.row <= b.row {
            a.row
        } else {
            b.row
        };
        let max_row = if a.row <= b.row {
            b.row
        } else {
            a.row
        };
        CellSpan {
            first_col: min_col,
            first_row: min_row,
            col_count: max_col - min_col + 1,
            row_count: max_row - min_row + 1,
        }
    }
}

impl SelectionState {
    /// No selection.
    pub fn new() -> (r: Self)
        ensures
            r == SelectionState::Empty,
    {
        SelectionState::Empty
    }

    /// A key press at `now`. A key outside the grid is ignored. Otherwise
    /// the cell starts a selection when none is open or the open one is at
    /// least the grid's timeout old; else it closes the open selection and
    /// the two cells are tiled to.
    pub fn advance(&mut self, keycode: u16, grid: &Grid, now: Timestamp) -> (r: SelectionAction)
        ensures
            (*final(self), r) == next_selection(
                *old(self),
                grid.cell_of(keycode),
                grid.selection_timeout,
                now,
            ),
    {
        let cell = match grid.cell_for_keycode(keycode) {
            Some(c) => c,
            None => {
                return SelectionAction::Ignored;
            },
        };
        match *self {
            SelectionState::Empty => {
                *self = SelectionState::FirstSelected { cell, selected_at: now };
                SelectionAction::FirstSelected(cell)
            },
            SelectionState::FirstSelected { cell: first, selected_at } => {
                if now.duration_since(selected_at).nanos >= grid.selection_timeout.nanos {
                    *self = SelectionState::FirstSelected { cell, selected_at: now };
                    SelectionAction::FirstSelected(cell)
                } else {
                    *self = SelectionState::Empty;
                    SelectionAction::Tile(first, cell)
                }
            },
        }
    }

    /// Drops any selection.
    pub fn reset(&mut self)
        ensures
            *final(self) == SelectionState::Empty,
    {
        *self = SelectionState::Empty;
    }

    /// Drops a first selection that is at least the grid's timeout old, and
    /// says whether it did.
    pub fn check_timeout(&mut self, now: Timestamp, grid: &Grid) -> (r: bool)
        ensures
            (*final(self), r) == expire_selection(*old(self), grid.selection_timeout, now),
    {
        if let SelectionState::FirstSelected { selected_at, .. } = *self {
            if now.duration_since(selected_at).nanos >= grid.selection_timeout.nanos {
                *self = SelectionState::Empty;
                return true;
            }
        }
        false
    }
}

/// Two keys of the grid pressed on an empty selection, the second less than
/// the timeout after the first, select the first cell and then tile to the
/// two cells (one cell where both keys are the same), leaving the selection
/// empty.
pub proof fn law_two_keys_tile(grid: Grid, k1: u16, k2: u16, t1: Timestamp, t2: Timestamp)
    requires
        grid.cell_of(k1) is Some,
        grid.cell_of(k2) is Some,
        !timed_out(t2, t1, grid.selection_timeout),
    ensures
        ({
            let c1 = grid.cell_of(k1)->0;
            let c2 = grid.cell_of(k2)->0;
            let (s1, a1) = next_selection(
                SelectionState::Empty,
                grid.cell_of(k1),
                grid.selection_timeout,
                t1,
            );
            let (s2, a2) = next_selection(s1, grid.cell_of(k2), grid.selection_timeout, t2);
            &&& a1 == SelectionAction::FirstSelected(c1)
            &&& a2 == SelectionAction::Tile(c1, c2)
            &&& s2 == SelectionState::Empty
        }),
{
}

/// A key of the grid pressed when the open selection is at least the
/// timeout old starts a new selection at that key's cell; nothing is tiled.
pub proof fn law_stale_selection_restarts(
    state: SelectionState,
    cell: Cell,
    timeout: TimeSpan,
    now: Timestamp,
)
    requires
        state matches SelectionState::FirstSelected { selected_at, .. } && timed_out(
            now,
            selected_at,
            timeout,
        ),
    ensures
        next_selection(state, Some(cell), timeout, now) == (
            SelectionState::FirstSelected { cell, selected_at: now },
            SelectionAction::FirstSelected(cell),
        ),
{
}

/// A tile closes a first selection that is younger than the timeout, with
/// the first cell of that selection and the cell of the key; the selection
/// is empty after it.
pub proof fn law_tile_closes_fresh_selection(
    state: SelectionState,
    cell: Option<Cell>,
    timeout: TimeSpan,
    now: Timestamp,
)
    ensures
        ({
            let (next, action) = next_selection(state, cell, timeout, now);
            action matches SelectionAction::Tile(a, b) ==> {
                &&& state matches SelectionState::FirstSelected { cell: first, selected_at } && first
                    == a && !timed_out(now, selected_at, timeout)
                &&& cell == Some(b)
                &&& next == SelectionState::Empty
            }
        }),
{
}

/// A key outside the grid leaves the selection as it was.
pub proof fn law_ignored_key_keeps_selection(state: SelectionState, timeout: TimeSpan, now: Timestamp)
    ensures
        next_selection(state, None, timeout, now) == (state, SelectionAction::Ignored),
{
}

/// After a timeout check has cleared a selection, or after a reset, the
/// next key of the grid starts a new selection.
pub proof fn law_cleared_selection_starts_over(
    state: SelectionState,
    cell: Cell,
    timeout: TimeSpan,
    checked_at: Timestamp,
    now: Timestamp,
)
    ensures
        expire_selection(state, timeout, checked_at).1 ==> next_selection(
            expire_selection(state, timeout, checked_at).0,
            Some(cell),
            timeout,
            now,
        ).1 == SelectionAction::FirstSelected(cell),
        next_selection(SelectionState::Empty, Some(cell), timeout, now).1
            == SelectionAction::FirstSelected(cell),
{
}

/// A timeout check clears exactly a first selection that is at least the
/// timeout old.
pub proof fn law_timeout_check_clears_stale_only(state: SelectionState, timeout: TimeSpan, now: Timestamp)
    ensures
        expire_selection(state, timeout, now).1 <==> (state matches SelectionState::FirstSelected {
            selected_at,
            ..
        } && timed_out(now, selected_at, timeout)),
        expire_selection(state, timeout, now).1 ==> expire_selection(state, timeout, now).0
            == SelectionState::Empty,
        !expire_selection(state, timeout, now).1 ==> expire_selection(state, timeout, now).0 == state,
{
}

/// The bounding box of two cells does not depend on their order.
pub proof fn law_span_order_independent(a: Cell, b: Cell)
    ensures
        span_of(a, b) == span_of(b, a),
{
}

/// The bounding box of two cells holds exactly the cells between them in
/// both directions.
pub proof fn law_span_is_bounding_box(a: Cell, b: Cell, c: Cell)
    requires
        span_fits(a, b),
    ensures
        span_holds(span_of(a, b), c) <==> (min_of(a.col, b.col) <= c.col <= max_of(a.col, b.col)
            && min_of(a.row, b.row) <= c.row <= max_of(a.row, b.row)),
        span_holds(span_of(a, b), a),
        span_holds(span_of(a, b), b),
{
}

/// The top-left and bottom-right cells span the whole grid.
pub proof fn law_corners_span_grid(cols: usize, rows: usize)
    requires
        cols > 0,
        rows > 0,
    ensures
        span_of(Cell { col: 0, row: 0 }, Cell { col: (cols - 1) as usize, row: (rows - 1) as usize })
            == (CellSpan { first_col: 0, first_row: 0, col_count: cols, row_count: rows }),
{
}

/// The lookup finds an entry whose keycode no other entry has, where the
/// entry lies inside the grid.
proof fn lemma_unique_entry_found(m: Seq<(u16, usize, usize)>, cols: usize, rows: usize, i: int)
    requires
        0 <= i < m.len(),
        m[i].1 < cols,
        m[i].2 < rows,
        forall|j: int| 0 <= j < m.len() && j != i ==> #[trigger] m[j].0 != m[i].0,
    ensures
        cell_in_map(m, cols, rows, m[i].0) == Some(Cell { col: m[i].1, row: m[i].2 }),
    decreases i,
{
    if i > 0 {
        let d = m.drop_first();
        assert(d[i - 1] == m[i]);
        assert forall|j: int| 0 <= j < d.len() && j != i - 1 implies #[trigger] d[j].0 != d[i - 1].0 by {
            assert(d[j] == m[j + 1]);
        }
        lemma_unique_entry_found(d, cols, rows, i - 1);
    }
}

/// In a grid built from a configuration that validates, the key at row `r`
/// and column `c` of the layout selects the cell at column `c`, row `r`.
pub proof fn law_each_key_selects_its_cell(config: Config, grid: Grid, r: int, c: int)
    requires
        validation_of(config) is Ok,
        layout_map(config.grid.keys@) == Ok::<Seq<(u16, usize, usize)>, ConfigFault>(grid.key_map()),
        grid.cols == config.grid.cols,
        grid.rows == config.grid.rows,
        0 <= r < grid.rows,
        0 <= c < grid.cols,
    ensures
        key_code(key_rows(config.grid.keys@)[r][c]) matches Some(k) && grid.cell_of(k) == Some(
            Cell { col: c as usize, row: r as usize },
        ),
{
    law_valid_config_shape(config);
    let rows = key_rows(config.grid.keys@);
    assert(rows[r].len() == config.grid.cols);
    lemma_entry_of_key(rows, r, c);
    let idx = grid_entries(rows.take(r)).len() + c;
    let entries = grid_entries(rows);
    law_keycode_map_matches_keys(entries);
    let m = grid.key_map();
    assert(m[idx].1 == entries[idx].1);
    assert forall|j: int| 0 <= j < m.len() && j != idx implies #[trigger] m[j].0 != m[idx].0 by {
        if j < idx {
            assert(m[j].0 != m[idx].0);
        } else {
            assert(m[idx].0 != m[j].0);
        }
    }
    lemma_unique_entry_found(m, grid.cols, grid.rows, idx);
}

/// A cell that the lookup finds is that of an entry with the keycode that
/// lies inside the grid.
proof fn lemma_found_entry(m: Seq<(u16, usize, usize)>, cols: usize, rows: usize, keycode: u16)
    ensures
        cell_in_map(m, cols, rows, keycode) matches Some(cell) ==> exists|i: int|
            0 <= i < m.len() && #[trigger] m[i].0 == keycode && m[i].1 == cell.col && m[i].2
                == cell.row && cell.col < cols && cell.row < rows,
    decreases m.len(),
{
    if m.len() > 0 {
        lemma_found_entry(m.drop_first(), cols, rows, keycode);
        if !(m[0].0 == keycode && m[0].1 < cols && m[0].2 < rows) {
            if let Some(cell) = cell_in_map(m, cols, rows, keycode) {
                let d = m.drop_first();
                let i = choose|i: int|
                    0 <= i < d.len() && #[trigger] d[i].0 == keycode && d[i].1 == cell.col && d[i].2
                        == cell.row && cell.col < cols && cell.row < rows;
                assert(m[i + 1] == d[i]);
            }
        }
    }
}

/// In a grid built from any layout whose keycode map builds, a keycode
/// selects the cell at column `c`, row `r` exactly where that cell lies in
/// both the grid and the layout and the key there has that keycode.
pub proof fn law_cell_lookup(config: GridConfig, grid: Grid, keycode: u16, c: usize, r: usize)
    requires
        layout_map(config.keys@) == Ok::<Seq<(u16, usize, usize)>, ConfigFault>(grid.key_map()),
        grid.cols == config.cols,
        grid.rows == config.rows,
    ensures
        grid.cell_of(keycode) == Some(Cell { col: c, row: r }) <==> {
            let rows = key_rows(config.keys@);
            &&& r < config.rows
            &&& r < rows.len()
            &&& c < config.cols
            &&& c < rows[r as int].len()
            &&& key_code(rows[r as int][c as int]) == Some(keycode)
        },
{
    let rows = key_rows(config.keys@);
    let entries = grid_entries(rows);
    let m = grid.key_map();
    law_keycode_map_matches_keys(entries);
    if grid.cell_of(keycode) == Some(Cell { col: c, row: r }) {
        lemma_found_entry(m, grid.cols, grid.rows, keycode);
        let i = choose|i: int|
            0 <= i < m.len() && #[trigger] m[i].0 == keycode && m[i].1 == c && m[i].2 == r && c
                < grid.cols && r < grid.rows;
        assert(m[i].1 == entries[i].1);
        lemma_entry_is_key(rows, i);
        let (r2, c2) = choose|r2: int, c2: int|
            0 <= r2 < rows.len() && 0 <= c2 < rows[r2].len() && entries[i] == (
                rows[r2][c2],
                c2 as usize,
                r2 as usize,
            );
        assert(rows.len() == config.keys.len());
        assert(rows[r2].len() == config.keys@[r2].len());
        assert(r2 == r && c2 == c);
    }
    if r < config.rows && r < rows.len() && c < config.cols && c < rows[r as int].len() && key_code(
        rows[r as int][c as int],
    ) == Some(keycode) {
        lemma_entry_of_key(rows, r as int, c as int);
        let idx = grid_entries(rows.take(r as int)).len() + c;
        assert(m[idx].1 == entries[idx].1);
        assert forall|j: int| 0 <= j < m.len() && j != idx implies #[trigger] m[j].0 != m[idx].0 by {
            if j < idx {
                assert(m[j].0 != m[idx].0);
            } else {
                assert(m[idx].0 != m[j].0);
            }
        }
        lemma_unique_entry_found(m, grid.cols, grid.rows, idx);
    }
}

/// Two keycodes that select the same cell are the same keycode.
pub proof fn law_distinct_keycodes_distinct_cells(config: GridConfig, grid: Grid, k1: u16, k2: u16)
    requires
        layout_map(config.keys@) == Ok::<Seq<(u16, usize, usize)>, ConfigFault>(grid.key_map()),
        grid.cols == config.cols,
        grid.rows == config.rows,
        grid.cell_of(k1) is Some,
        grid.cell_of(k1) == grid.cell_of(k2),
    ensures
        k1 == k2,
{
    let cell = grid.cell_of(k1)->0;
    law_cell_lookup(config, grid, k1, cell.col, cell.row);
    law_cell_lookup(config, grid, k2, cell.col, cell.row);
}

/// The timeout in plain arithmetic: a key of the grid pressed on a first
/// selection made at `at` tiles where less than the timeout has passed
/// since (a clock that went back counts as no time), and starts a new
/// selection where the timeout or more has passed; a timeout check clears
/// the selection exactly in the second case.
pub proof fn law_timeout_boundary(cell: Cell, at: Timestamp, next: Cell, timeout: TimeSpan, now: Timestamp)
    ensures
        ({
            let state = SelectionState::FirstSelected { cell, selected_at: at };
            let (s, a) = next_selection(state, Some(next), timeout, now);
            let (e, cleared) = expire_selection(state, timeout, now);
            &&& (if now.nanos >= at.nanos { now.nanos - at.nanos < timeout.nanos } else { timeout.nanos
                > 0 }) ==> (a == SelectionAction::Tile(cell, next) && s
                == SelectionState::Empty && !cleared && e == state)
            &&& (if now.nanos >= at.nanos { now.nanos - at.nanos >= timeout.nanos } else { timeout.nanos
                == 0 }) ==> (a == SelectionAction::FirstSelected(next)
                && s == (SelectionState::FirstSelected { cell: next, selected_at: now }) && cleared
                && e == SelectionState::Empty)
        }),
{
}

/// The bounding box in plain arithmetic: it starts at the smaller column
/// and row of the two cells, spans one more than their distance, and holds
/// a cell exactly where its column and row each lie between those of the
/// two cells.
pub proof fn law_span_arithmetic(a: Cell, b: Cell, c: Cell)
    requires
        span_fits(a, b),
    ensures
        span_of(a, b).first_col <= a.col && span_of(a, b).first_col <= b.col,
        span_of(a, b).first_col == a.col || span_of(a, b).first_col == b.col,
        span_of(a, b).first_row <= a.row && span_of(a, b).first_row <= b.row,
        span_of(a, b).first_row == a.row || span_of(a, b).first_row == b.row,
        span_of(a, b).col_count == (if a.col >= b.col { a.col - b.col } else { b.col - a.col }) + 1,
        span_of(a, b).row_count == (if a.row >= b.row { a.row - b.row } else { b.row - a.row }) + 1,
        span_holds(span_of(a, b), c) <==> ((a.col <= c.col <= b.col || b.col <= c.col <= a.col) && (
        a.row <= c.row <= b.row || b.row <= c.row <= a.row)),
{
}

} // verus!
