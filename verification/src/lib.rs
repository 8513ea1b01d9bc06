//! A retained-mode terminal UI toolkit: an application builds a tree
//! of widgets (containers, buttons, texts, inputs), the toolkit
//! computes a per-frame layout over integer cell units, renders each
//! widget to a character grid, diffs the composed frame against the
//! previous one to keep terminal writes to the changed rows, and
//! routes normalized keyboard and mouse events into application-level
//! messages.  The terminal device itself stays outside: a host feeds
//! in sizes and events and performs the writes `Screen::render`
//! computes.

pub mod application;
pub mod button;
pub mod container;
pub mod input;
pub mod laws;
pub mod model;
pub mod render;
pub mod screen;
pub mod text;
pub mod widget;
pub mod events;
pub mod message;
pub mod style;

use vstd::prelude::*;

verus! {

/// Largest extent, in cells, that a single widget dimension may take.
pub const MAX_CELL: u64 = 1_000_000;

/// Largest number of children a container may hold.
pub const MAX_CHILDREN: usize = 1_000_000;

/// Upper bound on any coordinate a layout pass can produce:
/// a cursor advances at most `MAX_CHILDREN` times by at most
/// `2 * MAX_CELL` (start padding plus resolved extent).
pub const POS_LIMIT: u64 = 2_000_000_000_000;

/// A width/height pair in terminal-cell units.
#[derive(Copy, Clone, Debug, PartialEq, Eq, Structural)]
pub struct Size {
    pub x: u64,
    pub y: u64,
}

/// A column/row pair in terminal-cell units, top-left origin.
#[derive(Copy, Clone, Debug, PartialEq, Eq, Structural)]
pub struct Position {
    pub x: u64,
    pub y: u64,
}

} // verus!
