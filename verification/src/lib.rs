//! Grid tiling of the focused window: key names and hotkeys, the grid and
//! its two-key selection, and the decisions of the overlay.

pub mod keys;
pub mod time;
pub mod config;
pub mod grid;
pub mod hotkey;
pub mod app;
pub mod aerospace;
