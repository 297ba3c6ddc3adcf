//! Workspaces: different views of the one scene.

use crate::input::Camera;
use crate::layout::LayoutMode;
use vstd::prelude::*;

verus! {

/// A camera and an arrangement. All workspaces share the scene's visuals.
#[derive(Debug, Clone)]
pub struct Workspace {
    pub camera: Camera,
    pub layout_mode: LayoutMode,
}

impl Workspace {
    /// The default camera, with visuals left where they are put.
    pub fn new() -> (w: Workspace)
        ensures
            w.camera.is_initial(),
            w.layout_mode == LayoutMode::Freeform,
    {
        Workspace { camera: Camera::new(), layout_mode: LayoutMode::Freeform }
    }
}

impl Default for Workspace {
    fn default() -> (w: Workspace)
        ensures
            w.camera.is_initial(),
            w.layout_mode == LayoutMode::Freeform,
    {
        Workspace::new()
    }
}

} // verus!
