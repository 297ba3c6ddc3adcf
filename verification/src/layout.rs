//! Which arrangement of the visuals is asked for.
//!
//! The mode is kept with the compositor and with each workspace. Where a mode
//! puts each visual is worked out outside, in floating point, and handed to
//! [`crate::compositor::LookingGlass::render`] for each frame.

use vstd::prelude::*;

verus! {

/// The arrangement that is asked for.
#[derive(Debug, Clone, Copy, PartialEq, Eq, Structural)]
pub enum LayoutMode {
    /// Each visual where it was put.
    Freeform,
    /// All visuals in one plane.
    Flat,
    /// The visuals in rows of this many columns.
    Grid { columns: usize },
}

} // verus!
