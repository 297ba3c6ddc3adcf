//! The core of a spatial Wayland compositor: scene, camera, input routing,
//! frame producers and frame statistics.

pub mod compositor;
pub mod dispatch;
pub mod frame;
pub mod geometry;
pub mod input;
pub mod input_router;
pub mod kvmfr;
pub mod layout;
pub mod perf;
pub mod picking;
pub mod producer;
pub mod renderer;
pub mod scalar;
pub mod scene;
pub mod workspace;
