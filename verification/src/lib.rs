//! Decisions behind a small satellite-range toy: which overlays are drawn for a
//! set of satellites, how the pointer picks up, drags and removes things, and
//! how the overlay's multi-state buttons behave.
//!
//! Everything here works on plain values (flags, counts, indices). Positions,
//! distances and time stay with the caller, which measures them and carries
//! out what the functions here decide.

use vstd::prelude::*;

pub mod moveable;
pub mod satellite;
pub mod ui;

verus! {

/// Between which satellites arcs are drawn.
#[derive(Clone, Copy, Debug, PartialEq, Eq, Structural)]
pub enum GraphVisibility {
    /// No arcs at all.
    Hidden,
    /// Arcs between each satellite and the one listed just before it.
    Adjacent,
    /// Arcs between every two satellites.
    All,
}

/// The overlay toggles that the buttons set and the drawing code reads.
#[derive(Clone, Copy, Debug, PartialEq, Eq, Structural)]
pub struct Settings {
    pub character_visible: bool,
    pub ranges_visible: bool,
    pub graph_visibility: GraphVisibility,
}

} // verus!
