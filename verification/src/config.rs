//! The user's configuration: the hotkey that shows the overlay, the grid and
//! its key layout, and the rules that a configuration must keep.

use vstd::prelude::*;
use vstd::string::*;
use vstd::utf8::is_ascii_chars;

use std::collections::HashSet;

use crate::keys::{ascii_lowercase, char_key_code, key_code, ALTERNATE_BIT, COMMAND_BIT, key_name_to_keycode, modifier_bits, modifier_name_to_flag, ModifierFlags};
use crate::grid::default_key_map;
use crate::time::TimeSpan;

verus! {

/// Why a configuration was refused.
#[derive(Debug)]
pub enum ConfigError {
    /// The hotkey's trigger key has no keycode.
    UnknownTriggerKey(String),
    /// A hotkey modifier is none of alt, cmd, shift or ctrl.
    UnknownModifier(String),
    /// A grid key name has no keycode.
    UnknownKey(String),
    /// Two grid keys name the same keycode; this is the later of them.
    DuplicateKey(String),
    /// The grid has no column or no row.
    EmptyGrid,
    /// The key layout has another number of rows than the grid.
    RowCountMismatch { expected: usize, found: usize },
    /// A row of the key layout has another number of keys than the grid has columns.
    RowLengthMismatch { row: usize, found: usize, expected: usize },
    /// The selection timeout is under 100 milliseconds.
    TimeoutTooShort,
}

/// A `ConfigError` with its names as sequences of chars.
pub enum ConfigFault {
    UnknownTriggerKey(Seq<char>),
    UnknownModifier(Seq<char>),
    UnknownKey(Seq<char>),
    DuplicateKey(Seq<char>),
    EmptyGrid,
    RowCountMismatch { expected: usize, found: usize },
    RowLengthMismatch { row: usize, found: usize, expected: usize },
    TimeoutTooShort,
}

impl View for ConfigError {
    type V = ConfigFault;

    open spec fn view(&self) -> ConfigFault {
        match self {
            ConfigError::UnknownTriggerKey(s) => ConfigFault::UnknownTriggerKey(s@),
            ConfigError::UnknownModifier(s) => ConfigFault::UnknownModifier(s@),
            ConfigError::UnknownKey(s) => ConfigFault::UnknownKey(s@),
            ConfigError::DuplicateKey(s) => ConfigFault::DuplicateKey(s@),
            ConfigError::EmptyGrid => ConfigFault::EmptyGrid,
            ConfigError::RowCountMismatch { expected, found } => ConfigFault::RowCountMismatch {
                expected: *expected,
                found: *found,
            },
            ConfigError::RowLengthMismatch { row, found, expected } =>
                ConfigFault::RowLengthMismatch { row: *row, found: *found, expected: *expected },
            ConfigError::TimeoutTooShort => ConfigFault::TimeoutTooShort,
        }
    }
}

/// The hotkey that toggles the overlay.
pub struct HotkeyConfig {
    pub trigger_key: String,
    pub modifiers: Vec<String>,
}

/// The grid: its size, the key of each cell row by row, and how long a
/// first selection waits for the second key.
pub struct GridConfig {
    pub cols: usize,
    pub rows: usize,
    pub keys: Vec<Vec<String>>,
    pub selection_timeout_ms: u64,
}

/// The configuration that the logic reads.
pub struct Config {
    pub hotkey: HotkeyConfig,
    pub grid: GridConfig,
}

/// The chars of each string.
pub open spec fn names_of(v: Seq<String>) -> Seq<Seq<char>> {
    v.map_values(|s: String| s@)
}

/// The chars of each key name, row by row.
pub open spec fn key_rows(keys: Seq<Vec<String>>) -> Seq<Seq<Seq<char>>> {
    keys.map_values(|row: Vec<String>| names_of(row@))
}

/// The keys of one row with their column and row.
pub open spec fn row_entries(row: Seq<Seq<char>>, r: int) -> Seq<(Seq<char>, usize, usize)> {
    Seq::new(row.len(), |c: int| (row[c], c as usize, r as usize))
}

/// All keys of the layout with their column and row, row by row.
pub open spec fn grid_entries(rows: Seq<Seq<Seq<char>>>) -> Seq<(Seq<char>, usize, usize)>
    decreases rows.len(),
{
    if rows.len() == 0 {
        Seq::empty()
    } else {
        grid_entries(rows.drop_last()) + row_entries(rows.last(), rows.len() - 1)
    }
}

/// The (keycode, column, row) map of a list of keys, in their order; the
/// first key without a keycode, or the first that repeats the keycode of an
/// earlier key, is refused.
pub open spec fn keycode_map_of(entries: Seq<(Seq<char>, usize, usize)>) -> Result<
    Seq<(u16, usize, usize)>,
    ConfigFault,
>
    decreases entries.len(),
{
    if entries.len() == 0 {
        Ok(Seq::empty())
    } else {
        match keycode_map_of(entries.drop_last()) {
            Err(e) => Err(e),
            Ok(m) => {
                let (name, col, row) = entries.last();
                match key_code(name) {
                    None => Err(ConfigFault::UnknownKey(name)),
                    Some(code) => if exists|j: int| 0 <= j < m.len() && m[j].0 == code {
                        Err(ConfigFault::DuplicateKey(name))
                    } else {
                        Ok(m.push((code, col, row)))
                    },
                }
            },
        }
    }
}

/// The keycode map of a key layout.
pub open spec fn layout_map(keys: Seq<Vec<String>>) -> Result<Seq<(u16, usize, usize)>, ConfigFault> {
    keycode_map_of(grid_entries(key_rows(keys)))
}

/// A result with its vector and error taken by their views.
pub open spec fn map_result_view(r: Result<Vec<(u16, usize, usize)>, ConfigError>) -> Result<
    Seq<(u16, usize, usize)>,
    ConfigFault,
> {
    match r {
        Ok(v) => Ok(v@),
        Err(e) => Err(e@),
    }
}

/// The union of the flags of a list of modifier names; the first unknown
/// name is refused.
pub open spec fn modifier_flags_of(mods: Seq<Seq<char>>) -> Result<u64, ConfigFault>
    decreases mods.len(),
{
    if mods.len() == 0 {
        Ok(0)
    } else {
        match modifier_flags_of(mods.drop_last()) {
            Err(e) => Err(e),
            Ok(f) => match modifier_bits(mods.last()) {
                None => Err(ConfigFault::UnknownModifier(mods.last())),
                Some(b) => Ok(f | b),
            },
        }
    }
}

/// The keycode and modifier flags of a hotkey.
pub open spec fn hotkey_of(trigger: Seq<char>, mods: Seq<Seq<char>>) -> Result<(i64, u64), ConfigFault> {
    match key_code(trigger) {
        None => Err(ConfigFault::UnknownTriggerKey(trigger)),
        Some(k) => match modifier_flags_of(mods) {
            Err(e) => Err(e),
            Ok(f) => Ok((k as i64, f)),
        },
    }
}

/// Row `i` is the first row of the layout whose length is not `cols`.
pub open spec fn first_misfit_row(rows: Seq<Seq<Seq<char>>>, cols: usize, i: int) -> bool {
    &&& 0 <= i < rows.len()
    &&& rows[i].len() != cols
    &&& forall|j: int| 0 <= j < i ==> rows[j].len() == cols
}

/// What validating a configuration gives: the checks in their order.
pub open spec fn validation_of(c: Config) -> Result<(), ConfigFault> {
    let g = c.grid;
    let rows = key_rows(g.keys@);
    if g.cols == 0 || g.rows == 0 {
        Err(ConfigFault::EmptyGrid)
    } else if g.keys@.len() != g.rows {
        Err(ConfigFault::RowCountMismatch { expected: g.rows, found: g.keys@.len() as usize })
    } else if exists|i: int| first_misfit_row(rows, g.cols, i) {
        let i = choose|i: int| first_misfit_row(rows, g.cols, i);
        Err(
            ConfigFault::RowLengthMismatch {
                row: i as usize,
                found: rows[i].len() as usize,
                expected: g.cols,
            },
        )
    } else {
        match layout_map(g.keys@) {
            Err(e) => Err(e),
            Ok(_) => match hotkey_of(c.hotkey.trigger_key@, names_of(c.hotkey.modifiers@)) {
                Err(e) => Err(e),
                Ok(_) => if g.selection_timeout_ms < 100 {
                    Err(ConfigFault::TimeoutTooShort)
                } else {
                    Ok(())
                },
            },
        }
    }
}

proof fn lemma_entries_step(rows: Seq<Seq<Seq<char>>>, i: int)
    requires
        0 <= i < rows.len(),
    ensures
        grid_entries(rows.take(i + 1)) == grid_entries(rows.take(i)) + row_entries(rows[i], i),
{
    assert(rows.take(i + 1).drop_last() =~= rows.take(i));
}

proof fn lemma_entries_prefix(rows: Seq<Seq<Seq<char>>>, i: int)
    requires
        0 <= i <= rows.len(),
    ensures
        grid_entries(rows.take(i)).is_prefix_of(grid_entries(rows)),
    decreases rows.len() - i,
{
    if i == rows.len() {
        assert(rows.take(i) =~= rows);
    } else {
        lemma_entries_step(rows, i);
        lemma_entries_prefix(rows, i + 1);
        let a = grid_entries(rows.take(i));
        let b = grid_entries(rows.take(i + 1));
        let c = grid_entries(rows);
        assert(a =~= b.subrange(0, a.len() as int));
        assert(a =~= c.subrange(0, a.len() as int));
    }
}

proof fn lemma_map_err_sticks(a: Seq<(Seq<char>, usize, usize)>, b: Seq<(Seq<char>, usize, usize)>)
    requires
        a.is_prefix_of(b),
        keycode_map_of(a) is Err,
    ensures
        keycode_map_of(b) == keycode_map_of(a),
    decreases b.len(),
{
    if b.len() == a.len() {
        assert(a =~= b);
    } else {
        assert(a =~= b.drop_last().subrange(0, a.len() as int));
        lemma_map_err_sticks(a, b.drop_last());
    }
}

proof fn lemma_flags_err_sticks(mods: Seq<Seq<char>>, i: int)
    requires
        0 <= i <= mods.len(),
        modifier_flags_of(mods.take(i)) is Err,
    ensures
        modifier_flags_of(mods) == modifier_flags_of(mods.take(i)),
    decreases mods.len() - i,
{
    if i == mods.len() {
        assert(mods.take(i) =~= mods);
    } else {
        assert(mods.take(i + 1).drop_last() =~= mods.take(i));
        lemma_flags_err_sticks(mods, i + 1);
    }
}

impl Default for HotkeyConfig {
    /// Option+command+T.
    fn default() -> (r: Self)
        ensures
            r.trigger_key@ == "t"@,
            names_of(r.modifiers@) == seq!["alt"@, "cmd"@],
    {
        let r = HotkeyConfig {
            trigger_key: String::from_str("t"),
            modifiers: vec![String::from_str("alt"), String::from_str("cmd")],
        };
        assert(names_of(r.modifiers@) =~= seq!["alt"@, "cmd"@]);
        r
    }
}

impl HotkeyConfig {
    /// The keycode of the trigger key and the union of the modifier flags.
    /// An unknown trigger key is refused before any modifier; then the
    /// first unknown modifier is.
    pub fn resolve(&self) -> (r: Result<(i64, ModifierFlags), ConfigError>)
        ensures
            match r {
                Ok((k, f)) => hotkey_of(self.trigger_key@, names_of(self.modifiers@)) == Ok::<
                    (i64, u64),
                    ConfigFault,
                >((k, f.bits)),
                Err(e) => hotkey_of(self.trigger_key@, names_of(self.modifiers@)) == Err::<
                    (i64, u64),
                    ConfigFault,
                >(e@),
            },
    {
        let keycode: u16 = match key_name_to_keycode(self.trigger_key.as_str()) {
            None => {
                return Err(ConfigError::UnknownTriggerKey(self.trigger_key.clone()));
            },
            Some(k) => k,
        };
        let ghost mods = names_of(self.modifiers@);
        let mut flags = ModifierFlags::empty();
        let mut i: usize = 0;
        while i < self.modifiers.len()
            invariant
                i <= self.modifiers@.len(),
                mods == names_of(self.modifiers@),
                key_code(self.trigger_key@) == Some(keycode),
                modifier_flags_of(mods.take(i as int)) == Ok::<u64, ConfigFault>(flags.bits),
            decreases self.modifiers@.len() - i,
        {
            let name = &self.modifiers[i];
            proof {
                assert(mods.take(i + 1).drop_last() =~= mods.take(i as int));
                assert(mods.take(i + 1).last() == name@);
            }
            match modifier_name_to_flag(name.as_str()) {
                None => {
                    proof {
                        lemma_flags_err_sticks(mods, i + 1);
                    }
                    return Err(ConfigError::UnknownModifier(name.clone()));
                },
                Some(f) => {
                    flags = flags.union(f);
                },
            }
            i = i + 1;
        }
        assert(mods.take(i as int) =~= mods);
        Ok((keycode as i64, flags))
    }
}

impl Default for GridConfig {
    /// Four columns by three rows on Q W E R / A S D F / Z X C V, with a
    /// one-second selection timeout.
    fn default() -> (r: Self)
        ensures
            r.cols == 4,
            r.rows == 3,
            key_rows(r.keys@) == seq![
                seq!["q"@, "w"@, "e"@, "r"@],
                seq!["a"@, "s"@, "d"@, "f"@],
                seq!["z"@, "x"@, "c"@, "v"@],
            ],
            r.selection_timeout_ms == 1000,
    {
        let r = GridConfig {
            cols: 4,
            rows: 3,
            keys: vec![
                vec![
                    String::from_str("q"),
                    String::from_str("w"),
                    String::from_str("e"),
                    String::from_str("r"),
                ],
                vec![
                    String::from_str("a"),
                    String::from_str("s"),
                    String::from_str("d"),
                    String::from_str("f"),
                ],
                vec![
                    String::from_str("z"),
                    String::from_str("x"),
                    String::from_str("c"),
                    String::from_str("v"),
                ],
            ],
            selection_timeout_ms: 1000,
        };
        assert(names_of(r.keys@[0]@) =~= seq!["q"@, "w"@, "e"@, "r"@]);
        assert(names_of(r.keys@[1]@) =~= seq!["a"@, "s"@, "d"@, "f"@]);
        assert(names_of(r.keys@[2]@) =~= seq!["z"@, "x"@, "c"@, "v"@]);
        assert(key_rows(r.keys@) =~= seq![
            seq!["q"@, "w"@, "e"@, "r"@],
            seq!["a"@, "s"@, "d"@, "f"@],
            seq!["z"@, "x"@, "c"@, "v"@],
        ]);
        r
    }
}

impl GridConfig {
    /// The selection timeout as a span.
    pub fn selection_timeout(&self) -> (r: TimeSpan)
        ensures
            r.nanos == self.selection_timeout_ms * 1_000_000,
    {
        TimeSpan::from_millis(self.selection_timeout_ms)
    }

    /// The (keycode, column, row) of each key of the layout, row by row.
    /// The first key, in that order, that has no keycode or repeats the
    /// keycode of an earlier key is refused.
    pub fn build_keycode_map(&self) -> (r: Result<Vec<(u16, usize, usize)>, ConfigError>)
        ensures
            map_result_view(r) == layout_map(self.keys@),
    {
        let ghost rows = key_rows(self.keys@);
        broadcast use vstd::std_specs::hash::group_hash_axioms;

        let mut map: Vec<(u16, usize, usize)> = Vec::new();
        let mut seen: HashSet<u16> = HashSet::new();
        let mut row: usize = 0;
        while row < self.keys.len()
            invariant
                row <= self.keys@.len(),
                rows == key_rows(self.keys@),
                forall|k: u16|
                    #![trigger seen@.contains(k)]
                    seen@.contains(k) <==> exists|j: int| 0 <= j < map@.len() && map@[j].0 == k,
                keycode_map_of(grid_entries(rows.take(row as int))) == Ok::<
                    Seq<(u16, usize, usize)>,
                    ConfigFault,
                >(map@),
            decreases self.keys@.len() - row,
        {
            let row_keys = &self.keys[row];
            let ghost done = grid_entries(rows.take(row as int));
            let ghost this_row = row_entries(rows[row as int], row as int);
            proof {
                lemma_entries_step(rows, row as int);
                lemma_entries_prefix(rows, row + 1);
                assert(rows[row as int] == names_of(row_keys@));
                assert(this_row.take(0) + done =~= done);
                assert(done + this_row.take(0) =~= done);
            }
            let mut col: usize = 0;
            while col < row_keys.len()
                invariant
                    row < self.keys@.len(),
                    row_keys == &self.keys@[row as int],
                    col <= row_keys@.len(),
                    rows == key_rows(self.keys@),
                    done == grid_entries(rows.take(row as int)),
                    this_row == row_entries(rows[row as int], row as int),
                    rows[row as int] == names_of(row_keys@),
                    grid_entries(rows.take(row + 1)) == done + this_row,
                    grid_entries(rows.take(row + 1)).is_prefix_of(grid_entries(rows)),
                    forall|k: u16|
                        #![trigger seen@.contains(k)]
                        seen@.contains(k) <==> exists|j: int| 0 <= j < map@.len() && map@[j].0 == k,
                    keycode_map_of(done + this_row.take(col as int)) == Ok::<
                        Seq<(u16, usize, usize)>,
                        ConfigFault,
                    >(map@),
                decreases row_keys@.len() - col,
            {
                let name = &row_keys[col];
                let ghost before = done + this_row.take(col as int);
                let ghost after = done + this_row.take(col + 1);
                proof {
                    assert(after.drop_last() =~= before);
                    assert(after.last() == (name@, col, row));
                    let all = grid_entries(rows);
                    let full = done + this_row;
                    assert(after =~= full.subrange(0, after.len() as int));
                    assert(after =~= all.subrange(0, after.len() as int));
                    assert(after.is_prefix_of(all));
                }
                let code: u16 = match key_name_to_keycode(name.as_str()) {
                    None => {
                        proof {
                            lemma_map_err_sticks(after, grid_entries(rows));
                            assert(rows.take(rows.len() as int) =~= rows);
                        }
                        return Err(ConfigError::UnknownKey(name.clone()));
                    },
                    Some(c) => c,
                };
                let ghost old_seen = seen@;
                if !seen.insert(code) {
                    proof {
                        lemma_map_err_sticks(after, grid_entries(rows));
                    }
                    return Err(ConfigError::DuplicateKey(name.clone()));
                }
                let ghost prev = map@;
                map.push((code, col, row));
                proof {
                    assert forall|k: u16| #![trigger seen@.contains(k)]
                        seen@.contains(k) <==> exists|j: int| 0 <= j < map@.len() && map@[j].0 == k by {
                        if k == code {
                            assert(map@[map@.len() - 1].0 == k);
                        } else if old_seen.contains(k) {
                            let j = choose|j: int| 0 <= j < prev.len() && prev[j].0 == k;
                            assert(map@[j] == prev[j]);
                        }
                        if exists|j: int| 0 <= j < map@.len() && map@[j].0 == k {
                            let j = choose|j: int| 0 <= j < map@.len() && map@[j].0 == k;
                            if j < map@.len() - 1 {
                                assert(map@[j] == prev[j]);
                                assert(old_seen.contains(k));
                            }
                        }
                    }
                }
                col = col + 1;
            }
            proof {
                assert(this_row.take(col as int) =~= this_row);
            }
            row = row + 1;
        }
        proof {
            assert(rows.take(row as int) =~= rows);
        }
        Ok(map)
    }
}

impl Default for Config {
    /// The default hotkey and grid.
    fn default() -> (r: Self)
        ensures
            r.hotkey.trigger_key@ == "t"@,
            names_of(r.hotkey.modifiers@) == seq!["alt"@, "cmd"@],
            r.grid.cols == 4,
            r.grid.rows == 3,
            key_rows(r.grid.keys@) == seq![
                seq!["q"@, "w"@, "e"@, "r"@],
                seq!["a"@, "s"@, "d"@, "f"@],
                seq!["z"@, "x"@, "c"@, "v"@],
            ],
            r.grid.selection_timeout_ms == 1000,
    {
        Config { hotkey: HotkeyConfig::default(), grid: GridConfig::default() }
    }
}

/// Checks a configuration: a grid of at least one cell, a key layout of
/// `rows` rows of `cols` keys, keys with distinct keycodes, a hotkey that
/// resolves, and a selection timeout of at least 100 ms. The first check
/// that fails, in that order, gives the error.
pub fn validate(config: &Config) -> (r: Result<(), ConfigError>)
    ensures
        match r {
            Ok(()) => validation_of(*config) == Ok::<(), ConfigFault>(()),
            Err(e) => validation_of(*config) == Err::<(), ConfigFault>(e@),
        },
{
    let g = &config.grid;
    let ghost rows = key_rows(g.keys@);
    if g.cols == 0 || g.rows == 0 {
        return Err(ConfigError::EmptyGrid);
    }
    if g.keys.len() != g.rows {
        return Err(ConfigError::RowCountMismatch { expected: g.rows, found: g.keys.len() });
    }
    let mut i: usize = 0;
    while i < g.keys.len()
        invariant
            i <= g.keys@.len(),
            g == &config.grid,
            g.cols != 0 && g.rows != 0,
            g.keys@.len() == g.rows,
            rows == key_rows(g.keys@),
            forall|j: int| 0 <= j < i ==> rows[j].len() == g.cols,
        decreases g.keys@.len() - i,
    {
        let found: usize = g.keys[i].len();
        assert(rows[i as int].len() == found);
        if found != g.cols {
            proof {
                assert(first_misfit_row(rows, g.cols, i as int));
                let k = choose|k: int| first_misfit_row(rows, g.cols, k);
                assert(k == i) by {
                    if k < i {
                        assert(rows[k].len() == g.cols);
                    } else if k > i {
                        assert(rows[i as int].len() == g.cols);
                    }
                }
            }
            return Err(ConfigError::RowLengthMismatch { row: i, found, expected: g.cols });
        }
        i = i + 1;
    }
    assert(!exists|k: int| first_misfit_row(rows, g.cols, k));
    match g.build_keycode_map() {
        Err(e) => {
            return Err(e);
        },
        Ok(_) => {},
    }
    match config.hotkey.resolve() {
        Err(e) => {
            return Err(e);
        },
        Ok(_) => {},
    }
    if g.selection_timeout_ms < 100 {
        return Err(ConfigError::TimeoutTooShort);
    }
    Ok(())
}

/// What `str::to_uppercase` returns for a string, as a sequence of chars.
pub uninterp spec fn uppercase(s: Seq<char>) -> Seq<char>;

/// Upper case of one ASCII char: `a`..`z` become `A`..`Z`, the rest stay.
pub open spec fn ascii_upper_char(c: char) -> char {
    if 'a' <= c && c <= 'z' {
        ((c as u32) - 32) as char
    } else {
        c
    }
}

/// Char-by-char ASCII upper case of a sequence.
pub open spec fn ascii_uppercase(s: Seq<char>) -> Seq<char> {
    s.map_values(|c: char| ascii_upper_char(c))
}

/// The upper case of a key name: ASCII upper case for an ASCII name, else
/// what `str::to_uppercase` returns.
pub open spec fn upper_name(s: Seq<char>) -> Seq<char> {
    if is_ascii_chars(s) {
        ascii_uppercase(s)
    } else {
        uppercase(s)
    }
}

/// Calls `str::to_uppercase`. The result is named by `uppercase`; beside
/// that the contract states only what Unicode's upper-case mapping does on
/// ASCII text: `a`..`z` become `A`..`Z` and every other ASCII char stays.
/// Nothing is stated of non-ASCII text.
#[verifier::external_body]
fn to_uppercase(s: &str) -> (r: String)
    ensures
        r@ == uppercase(s@),
        is_ascii_chars(s@) ==> r@ == ascii_uppercase(s@),
{
    s.to_uppercase()
}

/// The parts with `sep` between each two of them.
pub open spec fn join(parts: Seq<Seq<char>>, sep: Seq<char>) -> Seq<char>
    decreases parts.len(),
{
    if parts.len() == 0 {
        Seq::empty()
    } else if parts.len() == 1 {
        parts[0]
    } else {
        join(parts.drop_last(), sep) + sep + parts.last()
    }
}

/// The labels of a layout: the keys of a row joined by `,`, the rows by `;`.
pub open spec fn label_text(rows: Seq<Seq<Seq<char>>>) -> Seq<char> {
    join(rows.map_values(|row: Seq<Seq<char>>| join(row, ","@)), ";"@)
}

/// Each key name of a layout in upper case.
pub open spec fn uppercase_rows(rows: Seq<Seq<Seq<char>>>) -> Seq<Seq<Seq<char>>> {
    rows.map_values(|row: Seq<Seq<char>>| row.map_values(|k: Seq<char>| upper_name(k)))
}

/// The strings with `sep` between each two of them.
pub fn join_strings(parts: &Vec<String>, sep: &str) -> (r: String)
    ensures
        r@ == join(names_of(parts@), sep@),
{
    let ghost names = names_of(parts@);
    let mut res = String::new();
    let mut i: usize = 0;
    while i < parts.len()
        invariant
            i <= parts@.len(),
            names == names_of(parts@),
            res@ == join(names.take(i as int), sep@),
        decreases parts@.len() - i,
    {
        proof {
            assert(names.take(i + 1).drop_last() =~= names.take(i as int));
            assert(names.take(i + 1).last() == parts@[i as int]@);
        }
        if i != 0 {
            res.append(sep);
        }
        res.append(parts[i].as_str());
        proof {
            if i == 0 {
                assert(res@ =~= names.take(1)[0]);
            }
        }
        i = i + 1;
    }
    proof {
        assert(names.take(i as int) =~= names);
    }
    res
}

/// Joins the keys of each row by `,` and the rows by `;`.
pub fn join_label_rows(rows: &Vec<Vec<String>>) -> (r: String)
    ensures
        r@ == label_text(key_rows(rows@)),
{
    let ghost krows = key_rows(rows@);
    let mut lines: Vec<String> = Vec::new();
    let mut i: usize = 0;
    while i < rows.len()
        invariant
            i <= rows@.len(),
            krows == key_rows(rows@),
            lines@.len() == i,
            forall|j: int| 0 <= j < i ==> #[trigger] lines@[j]@ == join(krows[j], ","@),
        decreases rows@.len() - i,
    {
        let line = join_strings(&rows[i], ",");
        lines.push(line);
        i = i + 1;
    }
    let r = join_strings(&lines, ";");
    assert(names_of(lines@) =~= krows.map_values(|row: Seq<Seq<char>>| join(row, ","@)));
    r
}

impl GridConfig {
    /// The labels that the overlay shows: the key names in upper case, the
    /// keys of a row joined by `,`, the rows by `;`.
    pub fn build_label_string(&self) -> (r: String)
        ensures
            r@ == label_text(uppercase_rows(key_rows(self.keys@))),
    {
        let ghost krows = key_rows(self.keys@);
        let mut upper: Vec<Vec<String>> = Vec::new();
        let mut i: usize = 0;
        while i < self.keys.len()
            invariant
                i <= self.keys@.len(),
                krows == key_rows(self.keys@),
                upper@.len() == i,
                forall|j: int| 0 <= j < i ==> #[trigger] names_of(upper@[j]@) == krows[j].map_values(
                    |k: Seq<char>| upper_name(k),
                ),
            decreases self.keys@.len() - i,
        {
            let row = &self.keys[i];
            let mut up_row: Vec<String> = Vec::new();
            let mut c: usize = 0;
            while c < row.len()
                invariant
                    i < self.keys@.len(),
                    row == &self.keys@[i as int],
                    c <= row@.len(),
                    up_row@.len() == c,
                    forall|j: int| 0 <= j < c ==> #[trigger] up_row@[j]@ == upper_name(row@[j]@),
                decreases row@.len() - c,
            {
                up_row.push(to_uppercase(row[c].as_str()));
                c = c + 1;
            }
            proof {
                assert(names_of(up_row@) =~= krows[i as int].map_values(|k: Seq<char>| upper_name(k)));
            }
            upper.push(up_row);
            i = i + 1;
        }
        let r = join_label_rows(&upper);
        assert(key_rows(upper@) =~= uppercase_rows(krows));
        r
    }
}

/// A keycode map that a list of keys gives has one entry per key, in their
/// order, with the key's column, row and keycode, and no keycode twice.
pub proof fn law_keycode_map_matches_keys(entries: Seq<(Seq<char>, usize, usize)>)
    ensures
        keycode_map_of(entries) matches Ok(m) ==> {
            &&& m.len() == entries.len()
            &&& forall|i: int|
                0 <= i < m.len() ==> {
                    &&& #[trigger] m[i].1 == entries[i].1
                    &&& m[i].2 == entries[i].2
                    &&& key_code(entries[i].0) == Some(m[i].0)
                }
            &&& forall|i: int, j: int| 0 <= i < j < m.len() ==> m[i].0 != m[j].0
        },
    decreases entries.len(),
{
    if entries.len() > 0 {
        law_keycode_map_matches_keys(entries.drop_last());
        if let Ok(m) = keycode_map_of(entries) {
            let prev = keycode_map_of(entries.drop_last())->Ok_0;
            let es = entries.drop_last();
            assert(m == prev.push(m[m.len() - 1]));
            assert forall|i: int| 0 <= i < m.len() implies {
                &&& #[trigger] m[i].1 == entries[i].1
                &&& m[i].2 == entries[i].2
                &&& key_code(entries[i].0) == Some(m[i].0)
            } by {
                if i < prev.len() {
                    assert(m[i] == prev[i]);
                    assert(entries[i] == es[i]);
                }
            }
            assert forall|i: int, j: int| 0 <= i < j < m.len() implies m[i].0 != m[j].0 by {
                if j == m.len() - 1 {
                    assert(prev[i].0 == m[i].0);
                }
            }
        }
    }
}

/// Each key of the layout, at row `r` and column `c`, is an entry of the
/// list of keys, at the place of row `r` after the rows before it.
pub proof fn lemma_entry_of_key(rows: Seq<Seq<Seq<char>>>, r: int, c: int)
    requires
        0 <= r < rows.len(),
        0 <= c < rows[r].len(),
    ensures
        grid_entries(rows.take(r)).len() + c < grid_entries(rows).len(),
        grid_entries(rows)[grid_entries(rows.take(r)).len() + c] == (rows[r][c], c as usize, r as usize),
{
    lemma_entries_step(rows, r);
    lemma_entries_prefix(rows, r + 1);
    let k: int = grid_entries(rows.take(r)).len() + c;
    let part = grid_entries(rows.take(r + 1));
    assert(part[k] == row_entries(rows[r], r)[c]);
    assert(grid_entries(rows).subrange(0, part.len() as int)[k] == grid_entries(rows)[k]);
}

/// Where some row of the layout has a length other than `cols`, a first
/// such row exists.
pub proof fn lemma_first_misfit_exists(rows: Seq<Seq<Seq<char>>>, cols: usize, i: int)
    requires
        0 <= i < rows.len(),
        rows[i].len() != cols,
    ensures
        exists|k: int| first_misfit_row(rows, cols, k),
    decreases i,
{
    if forall|j: int| 0 <= j < i ==> rows[j].len() == cols {
        assert(first_misfit_row(rows, cols, i));
    } else {
        let j = choose|j: int| 0 <= j < i && rows[j].len() != cols;
        lemma_first_misfit_exists(rows, cols, j);
    }
}

/// A configuration that validates has a grid of `rows` rows of `cols` keys
/// each, a keycode map, and a hotkey that resolves.
pub proof fn law_valid_config_shape(c: Config)
    requires
        validation_of(c) is Ok,
    ensures
        c.grid.cols > 0,
        c.grid.rows > 0,
        key_rows(c.grid.keys@).len() == c.grid.rows,
        forall|i: int| 0 <= i < c.grid.rows ==> #[trigger] key_rows(c.grid.keys@)[i].len() == c.grid.cols,
        layout_map(c.grid.keys@) is Ok,
        hotkey_of(c.hotkey.trigger_key@, names_of(c.hotkey.modifiers@)) is Ok,
        c.grid.selection_timeout_ms >= 100,
{
    let rows = key_rows(c.grid.keys@);
    assert forall|i: int| 0 <= i < c.grid.rows implies #[trigger] rows[i].len() == c.grid.cols by {
        if rows[i].len() != c.grid.cols {
            lemma_first_misfit_exists(rows, c.grid.cols, i);
        }
    }
}

/// Every key of the list has a keycode, and no two keys share one.
pub open spec fn keys_known_and_distinct(entries: Seq<(Seq<char>, usize, usize)>) -> bool {
    &&& forall|i: int| 0 <= i < entries.len() ==> (#[trigger] key_code(entries[i].0)) is Some
    &&& forall|i: int, j: int|
        0 <= i < j < entries.len() ==> #[trigger] key_code(entries[i].0) != #[trigger] key_code(
            entries[j].0,
        )
}

/// A list of keys gives a keycode map exactly where every key has a
/// keycode and no two keys share one.
pub proof fn law_keycode_map_ok_iff(entries: Seq<(Seq<char>, usize, usize)>)
    ensures
        keycode_map_of(entries) is Ok <==> keys_known_and_distinct(entries),
    decreases entries.len(),
{
    if entries.len() > 0 {
        let pre = entries.drop_last();
        law_keycode_map_ok_iff(pre);
        law_keycode_map_matches_keys(pre);
        assert forall|i: int| 0 <= i < pre.len() implies #[trigger] pre[i] == entries[i] by {}
        if keycode_map_of(entries) is Ok {
            let m = keycode_map_of(pre)->Ok_0;
            let code = key_code(entries.last().0)->0;
            assert forall|i: int, j: int| 0 <= i < j < entries.len() implies #[trigger] key_code(
                entries[i].0,
            ) != #[trigger] key_code(entries[j].0) by {
                if j == entries.len() - 1 {
                    assert(m[i].0 != code);
                    assert(m[i].1 == pre[i].1);
                    assert(key_code(pre[i].0) == Some(m[i].0));
                } else {
                    assert(key_code(pre[i].0) != key_code(pre[j].0));
                }
            }
            assert forall|i: int| 0 <= i < entries.len() implies (#[trigger] key_code(
                entries[i].0,
            )) is Some by {
                if i < entries.len() - 1 {
                    assert(key_code(pre[i].0) is Some);
                }
            }
        }
        if keys_known_and_distinct(entries) {
            assert forall|i: int, j: int| 0 <= i < j < pre.len() implies #[trigger] key_code(
                pre[i].0,
            ) != #[trigger] key_code(pre[j].0) by {
                assert(key_code(entries[i].0) != key_code(entries[j].0));
            }
            assert forall|i: int| 0 <= i < pre.len() implies (#[trigger] key_code(pre[i].0)) is Some by {
                assert(key_code(entries[i].0) is Some);
            }
            let m = keycode_map_of(pre)->Ok_0;
            let last = entries.len() - 1;
            let code = key_code(entries[last].0)->0;
            assert(key_code(entries[last].0) is Some);
            assert forall|j: int| 0 <= j < m.len() implies m[j].0 != code by {
                assert(m[j].1 == pre[j].1);
                assert(key_code(pre[j].0) == Some(m[j].0));
                assert(key_code(entries[j].0) != key_code(entries[last].0));
            }
        }
    }
}

/// A one-char ASCII name's keycode is that of its char in lower case.
proof fn lemma_single_char_name(s: Seq<char>, c: char)
    requires
        s.len() == 1,
        s[0] == c,
        ('a' <= c <= 'z') || ('0' <= c <= '9'),
    ensures
        key_code(s) == char_key_code(c),
{
    assert(is_ascii_chars(s));
    assert(ascii_lowercase(s) =~= s);
}

/// The default configuration validates: its layout gives the keycode map
/// of the default 4x3 grid, its hotkey is option+command+T (keycode 17,
/// flags 0x180000), and its timeout is long enough.
pub proof fn law_default_config_validates(c: Config)
    requires
        c.hotkey.trigger_key@ == "t"@,
        names_of(c.hotkey.modifiers@) == seq!["alt"@, "cmd"@],
        c.grid.cols == 4,
        c.grid.rows == 3,
        key_rows(c.grid.keys@) == seq![
            seq!["q"@, "w"@, "e"@, "r"@],
            seq!["a"@, "s"@, "d"@, "f"@],
            seq!["z"@, "x"@, "c"@, "v"@],
        ],
        c.grid.selection_timeout_ms == 1000,
    ensures
        validation_of(c) == Ok::<(), ConfigFault>(()),
        layout_map(c.grid.keys@) == Ok::<Seq<(u16, usize, usize)>, ConfigFault>(default_key_map()),
        hotkey_of(c.hotkey.trigger_key@, names_of(c.hotkey.modifiers@)) == Ok::<(i64, u64), ConfigFault>(
            (17i64, 0x0018_0000u64),
        ),
{
    reveal_strlit("q");
    reveal_strlit("w");
    reveal_strlit("e");
    reveal_strlit("r");
    reveal_strlit("a");
    reveal_strlit("s");
    reveal_strlit("d");
    reveal_strlit("f");
    reveal_strlit("z");
    reveal_strlit("x");
    reveal_strlit("c");
    reveal_strlit("v");
    reveal_strlit("t");
    reveal_strlit("alt");
    reveal_strlit("cmd");
    reveal_strlit("option");
    reveal_strlit("opt");
    reveal_strlit("command");
    lemma_single_char_name("q"@, 'q');
    lemma_single_char_name("w"@, 'w');
    lemma_single_char_name("e"@, 'e');
    lemma_single_char_name("r"@, 'r');
    lemma_single_char_name("a"@, 'a');
    lemma_single_char_name("s"@, 's');
    lemma_single_char_name("d"@, 'd');
    lemma_single_char_name("f"@, 'f');
    lemma_single_char_name("z"@, 'z');
    lemma_single_char_name("x"@, 'x');
    lemma_single_char_name("c"@, 'c');
    lemma_single_char_name("v"@, 'v');
    lemma_single_char_name("t"@, 't');
    assert(key_code("q"@) == Some(12u16));
    assert(key_code("w"@) == Some(13u16));
    assert(key_code("e"@) == Some(14u16));
    assert(key_code("r"@) == Some(15u16));
    assert(key_code("a"@) == Some(0u16));
    assert(key_code("s"@) == Some(1u16));
    assert(key_code("d"@) == Some(2u16));
    assert(key_code("f"@) == Some(3u16));
    assert(key_code("z"@) == Some(6u16));
    assert(key_code("x"@) == Some(7u16));
    assert(key_code("c"@) == Some(8u16));
    assert(key_code("v"@) == Some(9u16));
    let rows = key_rows(c.grid.keys@);
    assert(!exists|i: int| first_misfit_row(rows, c.grid.cols, i));
    reveal_with_fuel(grid_entries, 4);
    let entries = grid_entries(rows);
    assert(rows.drop_last().drop_last().drop_last() =~= Seq::<Seq<Seq<char>>>::empty());
    assert(entries =~= seq![
        ("q"@, 0usize, 0usize),
        ("w"@, 1usize, 0usize),
        ("e"@, 2usize, 0usize),
        ("r"@, 3usize, 0usize),
        ("a"@, 0usize, 1usize),
        ("s"@, 1usize, 1usize),
        ("d"@, 2usize, 1usize),
        ("f"@, 3usize, 1usize),
        ("z"@, 0usize, 2usize),
        ("x"@, 1usize, 2usize),
        ("c"@, 2usize, 2usize),
        ("v"@, 3usize, 2usize)
    ]);
    assert(keys_known_and_distinct(entries));
    law_keycode_map_ok_iff(entries);
    let mods = names_of(c.hotkey.modifiers@);
    assert(ascii_lowercase("alt"@) =~= "alt"@);
    assert(ascii_lowercase("cmd"@) =~= "cmd"@);
    assert(modifier_bits("alt"@) == Some(ALTERNATE_BIT));
    assert("cmd"@[0] != "alt"@[0] && "cmd"@[0] != "opt"@[0]);
    assert("cmd"@ != "option"@);
    assert(modifier_bits("cmd"@) == Some(COMMAND_BIT));
    assert(mods.drop_last().drop_last() =~= Seq::<Seq<char>>::empty());
    reveal_with_fuel(modifier_flags_of, 3);
    assert(modifier_flags_of(mods) is Ok);
    assert((0u64 | 0x0008_0000u64) | 0x0010_0000u64 == 0x0018_0000u64) by (bit_vector);
    assert(key_code("t"@) == Some(17u16));
    law_keycode_map_matches_keys(entries);
    let m = keycode_map_of(entries)->Ok_0;
    assert(m.len() == 12);
    assert(m =~= default_key_map()) by {
        assert forall|i: int| 0 <= i < 12 implies #[trigger] m[i] == default_key_map()[i] by {
            assert(m[i].1 == entries[i].1);
            assert(key_code(entries[i].0) == Some(m[i].0));
        }
    }
}

/// The default layout's labels are `Q,W,E,R;A,S,D,F;Z,X,C,V`.
pub proof fn law_default_labels(keys: Seq<Vec<String>>)
    requires
        key_rows(keys) == seq![
            seq!["q"@, "w"@, "e"@, "r"@],
            seq!["a"@, "s"@, "d"@, "f"@],
            seq!["z"@, "x"@, "c"@, "v"@],
        ],
    ensures
        label_text(uppercase_rows(key_rows(keys))) == "Q,W,E,R;A,S,D,F;Z,X,C,V"@,
{
    reveal_strlit("q");
    reveal_strlit("w");
    reveal_strlit("e");
    reveal_strlit("r");
    reveal_strlit("a");
    reveal_strlit("s");
    reveal_strlit("d");
    reveal_strlit("f");
    reveal_strlit("z");
    reveal_strlit("x");
    reveal_strlit("c");
    reveal_strlit("v");
    reveal_strlit(",");
    reveal_strlit(";");
    reveal_strlit("Q,W,E,R;A,S,D,F;Z,X,C,V");
    assert(upper_name("q"@) =~= seq!['Q']);
    assert(upper_name("w"@) =~= seq!['W']);
    assert(upper_name("e"@) =~= seq!['E']);
    assert(upper_name("r"@) =~= seq!['R']);
    assert(upper_name("a"@) =~= seq!['A']);
    assert(upper_name("s"@) =~= seq!['S']);
    assert(upper_name("d"@) =~= seq!['D']);
    assert(upper_name("f"@) =~= seq!['F']);
    assert(upper_name("z"@) =~= seq!['Z']);
    assert(upper_name("x"@) =~= seq!['X']);
    assert(upper_name("c"@) =~= seq!['C']);
    assert(upper_name("v"@) =~= seq!['V']);
    let up = uppercase_rows(key_rows(keys));
    assert(up.len() == 3);
    assert(up[0] =~= seq![seq!['Q'], seq!['W'], seq!['E'], seq!['R']]);
    assert(up[1] =~= seq![seq!['A'], seq!['S'], seq!['D'], seq!['F']]);
    assert(up[2] =~= seq![seq!['Z'], seq!['X'], seq!['C'], seq!['V']]);
    reveal_with_fuel(join, 5);
    let lines = up.map_values(|row: Seq<Seq<char>>| join(row, ","@));
    assert(","@ =~= seq![',']);
    assert(";"@ =~= seq![';']);
    assert(lines[0] =~= seq!['Q', ',', 'W', ',', 'E', ',', 'R']);
    assert(lines[1] =~= seq!['A', ',', 'S', ',', 'D', ',', 'F']);
    assert(lines[2] =~= seq!['Z', ',', 'X', ',', 'C', ',', 'V']);
    assert(lines.drop_last().drop_last() =~= seq![lines[0]]);
    assert(lines.drop_last() =~= seq![lines[0], lines[1]]);
    assert(join(lines, ";"@) =~= "Q,W,E,R;A,S,D,F;Z,X,C,V"@);
}

/// Each entry of the list of keys is the key at some row and column of the
/// layout, with that column and row.
pub proof fn lemma_entry_is_key(rows: Seq<Seq<Seq<char>>>, i: int)
    requires
        0 <= i < grid_entries(rows).len(),
    ensures
        exists|r: int, c: int|
            0 <= r < rows.len() && 0 <= c < rows[r].len() && grid_entries(rows)[i] == (
                rows[r][c],
                c as usize,
                r as usize,
            ),
    decreases rows.len(),
{
    let pre = rows.drop_last();
    let last = rows.len() - 1;
    let head = grid_entries(pre);
    if i < head.len() {
        lemma_entry_is_key(pre, i);
        let (r, c) = choose|r: int, c: int|
            0 <= r < pre.len() && 0 <= c < pre[r].len() && head[i] == (
                pre[r][c],
                c as usize,
                r as usize,
            );
        assert(pre[r] == rows[r]);
        assert(grid_entries(rows)[i] == head[i]);
    } else {
        let c = i - head.len();
        assert(grid_entries(rows)[i] == row_entries(rows[last], last)[c]);
    }
}

/// The index of the last `sep` in `s`, or -1.
pub open spec fn last_index_of(s: Seq<char>, sep: char) -> int
    decreases s.len(),
{
    if s.len() == 0 {
        -1
    } else if s.last() == sep {
        s.len() - 1
    } else {
        last_index_of(s.drop_last(), sep)
    }
}

/// The pieces of `s` between the `sep` chars, as `str::split` gives them.
pub open spec fn split_at_char(s: Seq<char>, sep: char) -> Seq<Seq<char>>
    decreases s.len(),
{
    let i = last_index_of(s, sep);
    if i < 0 || i >= s.len() {
        seq![s]
    } else {
        split_at_char(s.subrange(0, i), sep).push(s.subrange(i + 1, s.len() as int))
    }
}

proof fn lemma_last_index(s: Seq<char>, sep: char)
    ensures
        -1 <= last_index_of(s, sep) < s.len(),
        last_index_of(s, sep) >= 0 ==> s[last_index_of(s, sep)] == sep,
        forall|j: int| last_index_of(s, sep) < j < s.len() ==> s[j] != sep,
    decreases s.len(),
{
    if s.len() > 0 && s.last() != sep {
        let d = s.drop_last();
        lemma_last_index(d, sep);
        assert forall|j: int| last_index_of(s, sep) < j < s.len() implies s[j] != sep by {
            if j < s.len() - 1 {
                assert(s[j] == d[j]);
            }
        }
        if last_index_of(s, sep) >= 0 {
            assert(s[last_index_of(s, sep)] == d[last_index_of(s, sep)]);
        }
    }
}

proof fn lemma_no_sep_last_index(s: Seq<char>, sep: char)
    requires
        !s.contains(sep),
    ensures
        last_index_of(s, sep) == -1,
{
    lemma_last_index(s, sep);
    if last_index_of(s, sep) >= 0 {
        assert(s.contains(sep));
    }
}

/// Joining pieces without `sep` by `sep` and splitting at `sep` gives the
/// pieces back; the joined text holds `sep` only between pieces.
proof fn lemma_split_join(parts: Seq<Seq<char>>, sep: char, other: char)
    requires
        parts.len() > 0,
        forall|i: int| 0 <= i < parts.len() ==> !(#[trigger] parts[i]).contains(sep),
        other != sep,
    ensures
        split_at_char(join(parts, seq![sep]), sep) == parts,
        (forall|i: int| 0 <= i < parts.len() ==> !(#[trigger] parts[i]).contains(other)) ==> !join(
            parts,
            seq![sep],
        ).contains(other),
    decreases parts.len(),
{
    let text = join(parts, seq![sep]);
    if parts.len() == 1 {
        lemma_no_sep_last_index(parts[0], sep);
    } else {
        let pre = parts.drop_last();
        assert forall|i: int| 0 <= i < pre.len() implies !(#[trigger] pre[i]).contains(sep) by {
            assert(pre[i] == parts[i]);
        }
        lemma_split_join(pre, sep, other);
        let head = join(pre, seq![sep]);
        let last = parts.last();
        assert(!last.contains(sep));
        assert(text == head + seq![sep] + last);
        lemma_last_index(text, sep);
        let k = head.len() as int;
        assert(text[k] == sep);
        assert forall|j: int| k < j < text.len() implies text[j] != sep by {
            assert(text[j] == last[j - k - 1]);
            if text[j] == sep {
                assert(last.contains(sep));
            }
        }
        let i = last_index_of(text, sep);
        if i < k {
            assert(text[k] != sep);
        }
        assert(i == k);
        assert(text.subrange(0, k) =~= head);
        assert(text.subrange(k + 1, text.len() as int) =~= last);
        assert(parts =~= pre.push(last));
        if (forall|i: int| 0 <= i < parts.len() ==> !(#[trigger] parts[i]).contains(other))
            && text.contains(other) {
            assert forall|i: int| 0 <= i < pre.len() implies !(#[trigger] pre[i]).contains(other) by {
                assert(pre[i] == parts[i]);
            }
            assert(!head.contains(other));
            assert(!last.contains(other));
            let j = choose|j: int| 0 <= j < text.len() && text[j] == other;
            if j < k {
                assert(head[j] == other);
                assert(head.contains(other));
            } else if j > k {
                assert(last[j - k - 1] == other);
                assert(last.contains(other));
            }
        }
    }
}

/// For a layout of ASCII names without `,` or `;`, with at least one row
/// and a key in each row, splitting the labels at `;` and each row at `,`
/// gives back the names in upper case.
pub proof fn law_labels_split_back(rows: Seq<Seq<Seq<char>>>)
    requires
        rows.len() > 0,
        forall|r: int| 0 <= r < rows.len() ==> (#[trigger] rows[r]).len() > 0,
        forall|r: int, c: int|
            0 <= r < rows.len() && 0 <= c < rows[r].len() ==> is_ascii_chars(#[trigger] rows[r][c])
                && !rows[r][c].contains(',') && !rows[r][c].contains(';'),
    ensures
        split_at_char(label_text(uppercase_rows(rows)), ';').map_values(
            |line: Seq<char>| split_at_char(line, ','),
        ) == uppercase_rows(rows),
{
    reveal_strlit(",");
    reveal_strlit(";");
    assert(","@ =~= seq![',']);
    assert(";"@ =~= seq![';']);
    let up = uppercase_rows(rows);
    assert forall|r: int, c: int| 0 <= r < up.len() && 0 <= c < up[r].len() implies !(
    #[trigger] up[r][c]).contains(',') && !up[r][c].contains(';') by {
        let k = rows[r][c];
        assert(up[r][c] == ascii_uppercase(k));
        if up[r][c].contains(',') {
            let j = choose|j: int| 0 <= j < up[r][c].len() && up[r][c][j] == ',';
            assert(k[j] == ',');
            assert(k.contains(','));
        }
        if up[r][c].contains(';') {
            let j = choose|j: int| 0 <= j < up[r][c].len() && up[r][c][j] == ';';
            assert(k[j] == ';');
            assert(k.contains(';'));
        }
    }
    let lines = up.map_values(|row: Seq<Seq<char>>| join(row, ","@));
    assert forall|r: int| 0 <= r < lines.len() implies !(#[trigger] lines[r]).contains(';')
        && split_at_char(lines[r], ',') == up[r] by {
        assert forall|c: int| 0 <= c < up[r].len() implies !(#[trigger] up[r][c]).contains(',') by {}
        assert forall|c: int| 0 <= c < up[r].len() implies !(#[trigger] up[r][c]).contains(';') by {}
        assert(up[r].len() == rows[r].len());
        lemma_split_join(up[r], ',', ';');
    }
    lemma_split_join(lines, ';', ' ');
    assert(split_at_char(label_text(up), ';').map_values(|line: Seq<char>| split_at_char(line, ','))
        =~= up);
}

/// A configuration validates exactly where it keeps every rule: at least
/// one column and one row, `rows` rows of `cols` keys each, keys with
/// distinct keycodes, a hotkey that resolves, and a timeout of at least
/// 100 ms.
pub proof fn law_validation_iff(c: Config)
    ensures
        validation_of(c) is Ok <==> {
            &&& c.grid.cols >= 1
            &&& c.grid.rows >= 1
            &&& c.grid.keys@.len() == c.grid.rows
            &&& forall|i: int| 0 <= i < c.grid.rows ==> #[trigger] c.grid.keys@[i]@.len() == c.grid.cols
            &&& layout_map(c.grid.keys@) is Ok
            &&& hotkey_of(c.hotkey.trigger_key@, names_of(c.hotkey.modifiers@)) is Ok
            &&& c.grid.selection_timeout_ms >= 100
        },
{
    let rows = key_rows(c.grid.keys@);
    if validation_of(c) is Ok {
        law_valid_config_shape(c);
        assert forall|i: int| 0 <= i < c.grid.rows implies #[trigger] c.grid.keys@[i]@.len()
            == c.grid.cols by {
            assert(rows[i].len() == c.grid.cols);
        }
    }
    if c.grid.cols >= 1 && c.grid.rows >= 1 && c.grid.keys@.len() == c.grid.rows && (forall|i: int|
        0 <= i < c.grid.rows ==> #[trigger] c.grid.keys@[i]@.len() == c.grid.cols) {
        if exists|i: int| first_misfit_row(rows, c.grid.cols, i) {
            let i = choose|i: int| first_misfit_row(rows, c.grid.cols, i);
            assert(c.grid.keys@[i]@.len() == c.grid.cols);
        }
    }
}

/// The flags of a list of modifiers are the union of the flags of its
/// parts: no modifier gives no flag, one known modifier gives its own flag,
/// two lists that resolve give the union of their flags, and a list that is
/// refused refuses everything it begins.
pub proof fn law_modifier_flags_union(a: Seq<Seq<char>>, b: Seq<Seq<char>>, n: Seq<char>)
    ensures
        modifier_flags_of(Seq::empty()) == Ok::<u64, ConfigFault>(0),
        modifier_bits(n) matches Some(x) ==> modifier_flags_of(seq![n]) == Ok::<u64, ConfigFault>(x),
        modifier_flags_of(a) is Ok && modifier_flags_of(b) is Ok ==> modifier_flags_of(a + b)
            == Ok::<u64, ConfigFault>(modifier_flags_of(a)->Ok_0 | modifier_flags_of(b)->Ok_0),
        modifier_flags_of(a) is Err ==> modifier_flags_of(a + b) == modifier_flags_of(a),
    decreases b.len(),
{
    if let Some(x) = modifier_bits(n) {
        assert(seq![n].drop_last() =~= Seq::<Seq<char>>::empty());
        assert(0u64 | x == x) by (bit_vector);
    }
    if b.len() == 0 {
        assert(a + b =~= a);
        if let Ok(fa) = modifier_flags_of(a) {
            assert(fa | 0u64 == fa) by (bit_vector);
        }
    } else {
        let bd = b.drop_last();
        law_modifier_flags_union(a, bd, n);
        assert((a + b).drop_last() =~= a + bd);
        assert((a + b).last() == b.last());
        if let Ok(fa) = modifier_flags_of(a) {
            if let Ok(fb) = modifier_flags_of(b) {
                let fbd = modifier_flags_of(bd)->Ok_0;
                let x = modifier_bits(b.last())->0;
                assert((fa | fbd) | x == fa | (fbd | x)) by (bit_vector);
            }
        }
    }
}

} // verus!
