//! Workspaces keep their own camera and arrangement.

use looking_glass_ng::geometry::Point3;
use looking_glass_ng::layout::LayoutMode;
use looking_glass_ng::scalar::Scalar;
use looking_glass_ng::workspace::Workspace;

fn point(x: f32, y: f32, z: f32) -> Point3 {
    Point3 {
        x: Scalar::from_bits(x.to_bits()),
        y: Scalar::from_bits(y.to_bits()),
        z: Scalar::from_bits(z.to_bits()),
    }
}

#[test]
fn new_workspace_defaults() {
    let ws = Workspace::new();
    assert_eq!(ws.layout_mode, LayoutMode::Freeform);
    assert_eq!(ws.camera.position, point(0.0, 0.0, 800.0));
}

#[test]
fn default_workspace_is_a_new_one() {
    let ws = Workspace::default();
    assert_eq!(ws.layout_mode, LayoutMode::Freeform);
    assert_eq!(ws.camera.position, point(0.0, 0.0, 800.0));
    assert!(ws.camera.bookmarks.iter().all(|b| b.is_none()));
}

#[test]
fn workspace_camera_independence() {
    let mut ws1 = Workspace::new();
    let mut ws2 = Workspace::new();
    ws1.camera.position = point(100.0, 200.0, 300.0);
    ws2.camera.position = point(400.0, 500.0, 600.0);
    ws1.layout_mode = LayoutMode::Flat;
    ws2.layout_mode = LayoutMode::Grid { columns: 3 };
    assert_ne!(ws1.camera.position, ws2.camera.position);
    assert_ne!(ws1.layout_mode, ws2.layout_mode);
}

#[test]
fn workspace_switch_preserves_state() {
    let mut ws1 = Workspace::new();
    ws1.camera.position = point(100.0, 200.0, 300.0);
    ws1.layout_mode = LayoutMode::Flat;

    let mut ws2 = Workspace::new();
    ws2.camera.position = point(400.0, 500.0, 600.0);
    ws2.layout_mode = LayoutMode::Grid { columns: 2 };

    let (cam1, lay1) = (ws1.camera.clone(), ws1.layout_mode);
    let (cam2, lay2) = (ws2.camera.clone(), ws2.layout_mode);
    assert_eq!(cam1.position, point(100.0, 200.0, 300.0));
    assert_eq!(cam2.position, point(400.0, 500.0, 600.0));
    assert_eq!(lay1, LayoutMode::Flat);
    assert_eq!(lay2, LayoutMode::Grid { columns: 2 });
}
