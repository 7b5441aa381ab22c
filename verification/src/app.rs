//! The overlay's decisions: when it shows and hides, and what each key
//! press asks the caller to do. The caller performs the screen and window
//! work and hands back what it found.

use vstd::prelude::*;

use crate::grid::{expire_selection, next_selection, timed_out, Cell, Grid, SelectionAction, SelectionState};
use crate::time::Timestamp;

verus! {

/// The keycode of the escape key.
pub const KEYCODE_ESCAPE: u16 = 53;

/// The state of the overlay. A hidden overlay holds no selection and no
/// window id.
pub struct App {
    grid: Grid,
    selection: SelectionState,
    overlay_visible: bool,
    aerospace_window_id: Option<String>,
}

/// What an `App` holds, for contracts.
pub struct Overlay {
    pub grid: Grid,
    pub selection: SelectionState,
    pub overlay_visible: bool,
    /// The Aerospace id of the window to tile, taken when the overlay showed.
    pub aerospace_window_id: Option<String>,
}

/// What the caller does after a key press.
pub enum KeyAction {
    /// Nothing.
    Nothing,
    /// Hide the overlay; the overlay state is already hidden.
    Dismiss,
    /// Highlight the cell as the first corner.
    Highlight(Cell),
    /// Tile the window to the bounding box of the two cells, through
    /// Aerospace where a window id is given, then hide the overlay; the
    /// overlay state is already hidden.
    Tile { first: Cell, second: Cell, aerospace_window_id: Option<String> },
}

/// What the caller does after the hotkey.
#[derive(Clone, Copy, Debug, PartialEq, Eq, Structural)]
pub enum ActivateAction {
    /// Hide the overlay; the overlay state is already hidden.
    Hide,
    /// Find the focused window and, if there is one, show the overlay.
    Show,
}

impl Overlay {
    /// A hidden overlay has no selection and no window id.
    pub open spec fn wf(&self) -> bool {
        !self.overlay_visible ==> self.selection == SelectionState::Empty
            && self.aerospace_window_id is None
    }

    /// The state with the overlay hidden.
    pub open spec fn hidden(self) -> Overlay {
        Overlay {
            grid: self.grid,
            selection: SelectionState::Empty,
            overlay_visible: false,
            aerospace_window_id: None,
        }
    }

    /// The state with the overlay shown for a window.
    pub open spec fn shown(self, aerospace_window_id: Option<String>) -> Overlay {
        Overlay {
            grid: self.grid,
            selection: SelectionState::Empty,
            overlay_visible: true,
            aerospace_window_id,
        }
    }

    /// The state and action after a key press at `now`.
    pub open spec fn after_key(self, keycode: u16, now: Timestamp) -> (Overlay, KeyAction) {
        if !self.overlay_visible {
            (self, KeyAction::Nothing)
        } else if keycode == KEYCODE_ESCAPE {
            (self.hidden(), KeyAction::Dismiss)
        } else {
            let (sel, action) = next_selection(
                self.selection,
                self.grid.cell_of(keycode),
                self.grid.selection_timeout,
                now,
            );
            match action {
                SelectionAction::FirstSelected(c) => (
                    Overlay { selection: sel, ..self },
                    KeyAction::Highlight(c),
                ),
                SelectionAction::Tile(a, b) => (
                    self.hidden(),
                    KeyAction::Tile { first: a, second: b, aerospace_window_id: self.aerospace_window_id },
                ),
                SelectionAction::Ignored => (self, KeyAction::Nothing),
            }
        }
    }

    /// The state and action after the hotkey.
    pub open spec fn after_activate(self) -> (Overlay, ActivateAction) {
        if self.overlay_visible {
            (self.hidden(), ActivateAction::Hide)
        } else {
            (self, ActivateAction::Show)
        }
    }

    /// The state after a timeout check at `now`, and whether the caller
    /// clears the highlight.
    pub open spec fn after_tick(self, now: Timestamp) -> (Overlay, bool) {
        if self.overlay_visible {
            let (sel, cleared) = expire_selection(self.selection, self.grid.selection_timeout, now);
            (Overlay { selection: sel, ..self }, cleared)
        } else {
            (self, false)
        }
    }

}

impl View for App {
    type V = Overlay;

    closed spec fn view(&self) -> Overlay {
        Overlay {
            grid: self.grid,
            selection: self.selection,
            overlay_visible: self.overlay_visible,
            aerospace_window_id: self.aerospace_window_id,
        }
    }
}

impl App {
    #[verifier::type_invariant]
    spec fn inv(&self) -> bool {
        self@.wf()
    }

    /// The grid.
    pub fn grid(&self) -> (r: &Grid)
        ensures
            *r == self@.grid,
    {
        &self.grid
    }

    /// The selection.
    pub fn selection(&self) -> (r: SelectionState)
        ensures
            r == self@.selection,
    {
        self.selection
    }

    /// Whether the overlay shows.
    pub fn overlay_visible(&self) -> (r: bool)
        ensures
            r == self@.overlay_visible,
    {
        self.overlay_visible
    }

    /// The Aerospace id of the window to tile.
    pub fn aerospace_window_id(&self) -> (r: &Option<String>)
        ensures
            *r == self@.aerospace_window_id,
    {
        &self.aerospace_window_id
    }

    /// A hidden overlay on the grid.
    pub fn new(grid: Grid) -> (r: Self)
        ensures
            r@ == (Overlay {
                grid,
                selection: SelectionState::Empty,
                overlay_visible: false,
                aerospace_window_id: None,
            }),
            r@.wf(),
    {
        App {
            grid,
            selection: SelectionState::new(),
            overlay_visible: false,
            aerospace_window_id: None,
        }
    }

    /// Shows the overlay for a window found by the caller, with an empty
    /// selection.
    pub fn show_overlay(&mut self, aerospace_window_id: Option<String>)
        ensures
            final(self)@ == old(self)@.shown(aerospace_window_id),
            final(self)@.wf(),
    {
        proof {
            use_type_invariant(&*self);
        }
        self.overlay_visible = true;
        self.selection = SelectionState::new();
        self.aerospace_window_id = aerospace_window_id;
    }

    /// Hides the overlay and forgets the selection and the window.
    pub fn hide_overlay(&mut self)
        ensures
            final(self)@ == old(self)@.hidden(),
            final(self)@.wf(),
    {
        proof {
            use_type_invariant(&*self);
        }
        self.selection = SelectionState::new();
        self.aerospace_window_id = None;
        self.overlay_visible = false;
    }

    /// A key press at `now`: nothing while the overlay is hidden; escape
    /// dismisses it; a key of the grid selects the first corner, or tiles
    /// and hides the overlay.
    pub fn handle_key(&mut self, keycode: u16, now: Timestamp) -> (r: KeyAction)
        ensures
            (final(self)@, r) == old(self)@.after_key(keycode, now),
            final(self)@.wf(),
    {
        proof {
            use_type_invariant(&*self);
        }
        if !self.overlay_visible {
            return KeyAction::Nothing;
        }
        if keycode == KEYCODE_ESCAPE {
            self.hide_overlay();
            return KeyAction::Dismiss;
        }
        let mut selection = self.selection;
        let action = selection.advance(keycode, &self.grid, now);
        match action {
            SelectionAction::FirstSelected(cell) => {
                self.selection = selection;
                KeyAction::Highlight(cell)
            },
            SelectionAction::Tile(a, b) => {
                let id = match &self.aerospace_window_id {
                    Some(w) => Some(w.clone()),
                    None => None,
                };
                self.hide_overlay();
                KeyAction::Tile { first: a, second: b, aerospace_window_id: id }
            },
            SelectionAction::Ignored => KeyAction::Nothing,
        }
    }

    /// The hotkey: hides a visible overlay, or asks the caller to show it.
    pub fn handle_activate(&mut self) -> (r: ActivateAction)
        ensures
            (final(self)@, r) == old(self)@.after_activate(),
            final(self)@.wf(),
    {
        proof {
            use_type_invariant(&*self);
        }
        if self.overlay_visible {
            self.hide_overlay();
            ActivateAction::Hide
        } else {
            ActivateAction::Show
        }
    }

    /// While the overlay shows, drops a first selection that is at least
    /// the grid's timeout old; true where the caller clears the highlight.
    pub fn check_timeout(&mut self, now: Timestamp) -> (r: bool)
        ensures
            (final(self)@, r) == old(self)@.after_tick(now),
            final(self)@.wf(),
    {
        proof {
            use_type_invariant(&*self);
        }
        if self.overlay_visible {
            let mut selection = self.selection;
            let cleared = selection.check_timeout(now, &self.grid);
            self.selection = selection;
            cleared
        } else {
            false
        }
    }
}

/// With the overlay shown for a window, two keys of the grid, the second
/// less than the timeout after the first and neither of them escape,
/// highlight the first cell and then tile that window to the two cells,
/// and the overlay is hidden after.
pub proof fn law_show_then_two_keys_tile(
    app: Overlay,
    id: Option<String>,
    k1: u16,
    k2: u16,
    t1: Timestamp,
    t2: Timestamp,
)
    requires
        k1 != KEYCODE_ESCAPE,
        k2 != KEYCODE_ESCAPE,
        app.grid.cell_of(k1) is Some,
        app.grid.cell_of(k2) is Some,
        !timed_out(t2, t1, app.grid.selection_timeout),
    ensures
        ({
            let c1 = app.grid.cell_of(k1)->0;
            let c2 = app.grid.cell_of(k2)->0;
            let (a1, r1) = app.shown(id).after_key(k1, t1);
            let (a2, r2) = a1.after_key(k2, t2);
            &&& r1 == KeyAction::Highlight(c1)
            &&& r2 == (KeyAction::Tile { first: c1, second: c2, aerospace_window_id: id })
            &&& a2 == app.hidden()
        }),
{
}

/// The hotkey hides a visible overlay; on a hidden one it asks for the
/// overlay and changes nothing.
pub proof fn law_hotkey_toggles(app: Overlay)
    ensures
        app.overlay_visible ==> app.after_activate() == (app.hidden(), ActivateAction::Hide),
        !app.overlay_visible ==> app.after_activate() == (app, ActivateAction::Show),
{
}

/// Escape dismisses a visible overlay.
pub proof fn law_escape_dismisses(app: Overlay, now: Timestamp)
    requires
        app.overlay_visible,
    ensures
        app.after_key(KEYCODE_ESCAPE, now) == (app.hidden(), KeyAction::Dismiss),
{
}

/// A hidden overlay ignores keys and timeout checks.
pub proof fn law_hidden_overlay_is_inert(app: Overlay, keycode: u16, now: Timestamp)
    requires
        !app.overlay_visible,
    ensures
        app.after_key(keycode, now) == (app, KeyAction::Nothing),
        app.after_tick(now) == (app, false),
{
}

/// A tile always leaves the overlay hidden, and a key never changes the
/// grid.
pub proof fn law_tile_hides_overlay(app: Overlay, keycode: u16, now: Timestamp)
    ensures
        app.after_key(keycode, now).1 matches KeyAction::Tile { .. } ==> !app.after_key(
            keycode,
            now,
        ).0.overlay_visible,
        app.after_key(keycode, now).0.grid == app.grid,
{
}

/// On a visible overlay, a key other than escape (53) that selects no cell
/// of the grid changes nothing, whatever the selection.
pub proof fn law_off_grid_key_changes_nothing(app: Overlay, keycode: u16, now: Timestamp)
    requires
        app.overlay_visible,
        keycode != 53,
        app.grid.cell_of(keycode) is None,
    ensures
        app.after_key(keycode, now) == (app, KeyAction::Nothing),
{
}

/// A key off the grid between the two corners does not stop the tile: with
/// the overlay shown, a grid key, an off-grid key and a second grid key less
/// than the timeout after the first highlight the first cell, do nothing,
/// then tile to the two cells and hide the overlay.
pub proof fn law_off_grid_key_keeps_first_corner(
    app: Overlay,
    id: Option<String>,
    k1: u16,
    off: u16,
    k2: u16,
    t1: Timestamp,
    t_off: Timestamp,
    t2: Timestamp,
)
    requires
        k1 != 53,
        off != 53,
        k2 != 53,
        app.grid.cell_of(k1) is Some,
        app.grid.cell_of(off) is None,
        app.grid.cell_of(k2) is Some,
        !timed_out(t2, t1, app.grid.selection_timeout),
    ensures
        ({
            let c1 = app.grid.cell_of(k1)->0;
            let c2 = app.grid.cell_of(k2)->0;
            let (a1, r1) = app.shown(id).after_key(k1, t1);
            let (a2, r2) = a1.after_key(off, t_off);
            let (a3, r3) = a2.after_key(k2, t2);
            &&& r1 == KeyAction::Highlight(c1)
            &&& r2 == KeyAction::Nothing
            &&& a2 == a1
            &&& r3 == (KeyAction::Tile { first: c1, second: c2, aerospace_window_id: id })
            &&& a3 == app.hidden()
        }),
{
}

/// On a visible overlay, escape (53) hides it with nothing selected, and a
/// key of the grid on an empty selection highlights its cell and keeps the
/// overlay shown.
pub proof fn law_escape_and_first_corner(app: Overlay, keycode: u16, now: Timestamp)
    requires
        app.overlay_visible,
    ensures
        app.after_key(53, now).1 == KeyAction::Dismiss,
        !app.after_key(53, now).0.overlay_visible,
        app.after_key(53, now).0.selection == SelectionState::Empty,
        keycode != 53 && app.selection == SelectionState::Empty && app.grid.cell_of(keycode) is Some
            ==> {
            &&& app.after_key(keycode, now).1 == KeyAction::Highlight(app.grid.cell_of(keycode)->0)
            &&& app.after_key(keycode, now).0.overlay_visible
            &&& app.after_key(keycode, now).0.selection == (SelectionState::FirstSelected {
                cell: app.grid.cell_of(keycode)->0,
                selected_at: now,
            })
        },
{
}

/// Hiding keeps the grid and clears everything else; showing keeps the
/// grid, clears the selection and takes the window id; the hotkey on a
/// visible overlay hides it with nothing selected.
pub proof fn law_hide_and_show(app: Overlay, id: Option<String>)
    ensures
        app.hidden().grid == app.grid,
        !app.hidden().overlay_visible,
        app.hidden().selection == SelectionState::Empty,
        app.hidden().aerospace_window_id is None,
        app.shown(id).grid == app.grid,
        app.shown(id).overlay_visible,
        app.shown(id).selection == SelectionState::Empty,
        app.shown(id).aerospace_window_id == id,
        app.overlay_visible ==> !app.after_activate().0.overlay_visible
            && app.after_activate().0.selection == SelectionState::Empty,
{
}

} // verus!
