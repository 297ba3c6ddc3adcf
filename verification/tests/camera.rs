//! The camera: bookmarks, turning, zooming, keys and framing.

use looking_glass_ng::geometry::{Point3, Vector3};
use looking_glass_ng::input::{
    AbsolutePointer, Bounds, Camera, CameraAction, CameraView, EYE_DISTANCE_BITS, LARGEST_BITS,
    PITCH_LIMIT_BITS, PITCH_LOW_BITS, SENSITIVITY_BITS, SMALLEST_BITS, SPEED_BITS, ZOOM_LIMIT_BITS,
    ZOOM_LOW_BITS, ZOOM_SPEED_BITS,
};
use looking_glass_ng::geometry::Rect;
use looking_glass_ng::scalar::{Scalar, Scalar64};
use looking_glass_ng::scene::{Scene, Visual, VisualContent, VisualId};

fn s(x: f32) -> Scalar {
    Scalar::from_bits(x.to_bits())
}

fn f(x: Scalar) -> f32 {
    f32::from_bits(x.bits)
}

fn point(x: f32, y: f32, z: f32) -> Point3 {
    Point3 { x: s(x), y: s(y), z: s(z) }
}

fn vector(x: f32, y: f32, z: f32) -> Vector3 {
    Vector3 { x: s(x), y: s(y), z: s(z) }
}

fn view(cam: &Camera) -> CameraView {
    CameraView { position: cam.position, yaw: cam.yaw, pitch: cam.pitch }
}

fn one_visual() -> Scene<u32> {
    let mut scene: Scene<u32> = Scene::default();
    scene.add(Visual::new(
        VisualId(1),
        VisualContent::ExternalTexture(7),
        Rect { x: 0, y: 0, w: 200, h: 100 },
    ));
    scene
}

#[test]
fn camera_numbers() {
    assert_eq!(EYE_DISTANCE_BITS, 800.0f32.to_bits());
    assert_eq!(SPEED_BITS, 10.0f32.to_bits());
    assert_eq!(SENSITIVITY_BITS, 0.005f32.to_bits());
    assert_eq!(ZOOM_SPEED_BITS, 50.0f32.to_bits());
    assert_eq!(PITCH_LIMIT_BITS, 1.5f32.to_bits());
    assert_eq!(PITCH_LOW_BITS, (-1.5f32).to_bits());
    assert_eq!(ZOOM_LIMIT_BITS, 10000.0f32.to_bits());
    assert_eq!(ZOOM_LOW_BITS, (-10000.0f32).to_bits());
    assert_eq!(LARGEST_BITS, f32::MAX.to_bits());
    assert_eq!(SMALLEST_BITS, f32::MIN.to_bits());
}

#[test]
fn new_camera() {
    let cam = Camera::new();
    assert_eq!(cam.position, point(0.0, 0.0, 800.0));
    assert_eq!(f(cam.yaw), 0.0);
    assert_eq!(f(cam.pitch), 0.0);
    assert_eq!(f(cam.speed), 10.0);
    assert_eq!(f(cam.sensitivity), 0.005);
    assert_eq!(f(cam.zoom_speed), 50.0);
    assert!(cam.bookmarks.iter().all(|b| b.is_none()));
}

#[test]
fn frame_all_empty() {
    let mut cam = Camera::new();
    let scene: Scene<u32> = Scene::default();
    assert!(!cam.frame_all(&scene, point(1.0, 2.0, 3.0)));
}

#[test]
fn frame_all_not_empty() {
    let mut cam = Camera::new();
    let scene: Scene<u32> = Scene::default();
    assert!(!cam.frame_all(&scene, point(1.0, 2.0, 3.0)));
    assert_eq!(cam.position, point(0.0, 0.0, 800.0));

    let filled = one_visual();
    cam.yaw = s(0.5);
    cam.pitch = s(0.3);
    assert!(cam.frame_all(&filled, point(1.0, 2.0, 3.0)));
    assert_eq!(cam.position, point(1.0, 2.0, 3.0));
    assert_eq!(f(cam.yaw), 0.0);
    assert_eq!(f(cam.pitch), 0.0);
}

#[test]
fn save_and_restore_bookmark() {
    let mut cam = Camera::new();
    cam.position = point(100.0, 200.0, 300.0);
    cam.yaw = s(0.5);
    cam.pitch = s(0.3);
    cam.save_bookmark(1);
    cam.position = point(999.0, 999.0, 999.0);
    cam.yaw = s(1.0);
    cam.pitch = s(0.5);
    assert!(cam.restore_bookmark(1));
    assert!((f(cam.position.x) - 100.0).abs() < 1e-4);
    assert!((f(cam.position.y) - 200.0).abs() < 1e-4);
    assert!((f(cam.position.z) - 300.0).abs() < 1e-4);
    assert!((f(cam.yaw) - 0.5).abs() < 1e-4);
    assert!((f(cam.pitch) - 0.3).abs() < 1e-4);
}

#[test]
fn restore_empty_bookmark_returns_false() {
    let mut cam = Camera::new();
    assert!(!cam.restore_bookmark(0));
}

#[test]
fn bookmarks_beyond_the_last_are_ignored() {
    let mut cam = Camera::new();
    cam.save_bookmark(9);
    cam.save_bookmark(10);
    assert!(cam.restore_bookmark(9));
    assert!(!cam.restore_bookmark(10));
    assert!(!cam.restore_bookmark(8));
}

#[test]
fn bookmarks_do_not_disturb_each_other() {
    let mut cam = Camera::new();
    cam.position = point(1.0, 1.0, 1.0);
    cam.save_bookmark(0);
    cam.position = point(2.0, 2.0, 2.0);
    cam.save_bookmark(1);
    assert!(cam.restore_bookmark(0));
    assert_eq!(cam.position, point(1.0, 1.0, 1.0));
    assert!(cam.restore_bookmark(1));
    assert_eq!(cam.position, point(2.0, 2.0, 2.0));
}

/// The yaw and pitch that a drag leads to, as the renderer side computes them.
fn orbit_target(cam: &Camera, dx: f64, dy: f64) -> (Scalar, Scalar) {
    let step = f(cam.sensitivity) * 5.0;
    (s(f(cam.yaw) + dx as f32 * step), s(f(cam.pitch) - dy as f32 * step))
}

#[test]
fn orbit_changes_yaw_and_pitch() {
    let mut cam = Camera::new();
    let (y0, p0) = (cam.yaw, cam.pitch);
    let (yaw, pitch) = orbit_target(&cam, 10.0, 5.0);
    cam.handle_orbit(yaw, pitch);
    assert_ne!(cam.yaw, y0);
    assert_ne!(cam.pitch, p0);
}

#[test]
fn orbit_stops_at_the_steepest_pitch() {
    let mut cam = Camera::new();
    cam.handle_orbit(s(0.25), s(7.0));
    assert_eq!(f(cam.yaw), 0.25);
    assert_eq!(f(cam.pitch), 1.5);
    cam.handle_mouse_move(s(-0.5), s(-7.0));
    assert_eq!(f(cam.yaw), -0.5);
    assert_eq!(f(cam.pitch), -1.5);
    cam.handle_mouse_move(s(0.0), s(0.75));
    assert_eq!(f(cam.pitch), 0.75);
    assert_eq!(cam.position, point(0.0, 0.0, 800.0));
}

#[test]
fn zoom_changes_z_position() {
    let mut cam = Camera::new();
    let z0 = cam.position.z;
    let step = -100.0f32 * f(cam.zoom_speed) * 0.01;
    let moved = point(0.0, 0.0, f(cam.position.z) - step);
    cam.handle_zoom(moved);
    assert_ne!(cam.position.z, z0);
    assert_eq!(f(cam.position.z), 850.0);
}

#[test]
fn zoom_stops_at_its_limits() {
    let mut cam = Camera::new();
    cam.handle_zoom(point(5.0, 6.0, 20000.0));
    assert_eq!(cam.position, point(5.0, 6.0, 10000.0));
    cam.handle_zoom(point(5.0, 6.0, -20000.0));
    assert_eq!(cam.position, point(5.0, 6.0, -10000.0));
    cam.handle_zoom(point(5.0, 6.0, f32::NAN));
    assert!(f(cam.position.z).is_nan());
}

#[test]
fn pan_moves_camera() {
    let mut cam = Camera::new();
    let (x0, y0) = (cam.position.x, cam.position.y);
    let (dx, dy, speed) = (100.0f64, 50.0f64, 0.5f32);
    let (sin_yaw, cos_yaw) = f(cam.yaw).sin_cos();
    let across = dx as f32 * speed;
    let moved = point(
        f(cam.position.x) + cos_yaw * across,
        f(cam.position.y) + (-dy as f32) * speed,
        f(cam.position.z) - sin_yaw * across,
    );
    cam.handle_pan(moved);
    assert_ne!(cam.position.x, x0);
    assert_ne!(cam.position.y, y0);
    assert_eq!(cam.position, point(50.0, -25.0, 800.0));
}

#[test]
fn keys_have_their_actions() {
    let actions = [
        (25, CameraAction::Forward),
        (39, CameraAction::Backward),
        (38, CameraAction::StrafeLeft),
        (40, CameraAction::StrafeRight),
        (24, CameraAction::Down),
        (26, CameraAction::Up),
        (113, CameraAction::TurnLeft),
        (114, CameraAction::TurnRight),
        (111, CameraAction::LookUp),
        (116, CameraAction::LookDown),
        (27, CameraAction::Nothing),
        (0, CameraAction::Nothing),
    ];
    for (key, action) in actions {
        assert_eq!(Camera::key_action(key, true), action);
        assert_eq!(Camera::key_action(key, false), CameraAction::Nothing);
    }
}

#[test]
fn keys_move_what_they_should() {
    let target = CameraView { position: point(1.0, 2.0, 3.0), yaw: s(0.5), pitch: s(3.0) };
    let before = view(&Camera::new());
    for key in [25, 39, 38, 40] {
        let mut cam = Camera::new();
        cam.handle_key(key, true, target);
        assert_eq!(view(&cam), CameraView { position: target.position, ..before });
    }
    for key in [24, 26] {
        let mut cam = Camera::new();
        cam.handle_key(key, true, target);
        assert_eq!(cam.position, point(0.0, 2.0, 800.0));
        assert_eq!(cam.yaw, before.yaw);
    }
    for key in [113, 114] {
        let mut cam = Camera::new();
        cam.handle_key(key, true, target);
        assert_eq!(view(&cam), CameraView { yaw: target.yaw, ..before });
    }
    for key in [111, 116] {
        let mut cam = Camera::new();
        cam.handle_key(key, true, target);
        assert_eq!(view(&cam), CameraView { pitch: s(1.5), ..before });
    }
    let mut cam = Camera::new();
    cam.handle_key(27, true, target);
    cam.handle_key(25, false, target);
    assert_eq!(view(&cam), before);
}

#[test]
fn views_compare_as_numbers() {
    let one = CameraView { position: point(0.0, 1.0, 2.0), yaw: s(0.0), pitch: s(0.5) };
    let other = CameraView { position: point(-0.0, 1.0, 2.0), yaw: s(-0.0), pitch: s(0.5) };
    assert_eq!(one, other);
    assert_ne!(one, CameraView { pitch: s(0.25), ..one });
    assert_ne!(one, CameraView { position: point(0.0, 1.0, 3.0), ..one });
    let none = CameraView { yaw: s(f32::NAN), ..one };
    assert_ne!(none, none);
}

#[test]
fn frame_visual_needs_a_visual() {
    let mut cam = Camera::new();
    cam.yaw = s(0.5);
    assert!(!cam.frame_visual(None));
    assert_eq!(f(cam.yaw), 0.5);
    assert!(cam.frame_visual(Some(point(1.0, 2.0, 3.0))));
    assert_eq!(cam.position, point(1.0, 2.0, 3.0));
    assert_eq!(f(cam.yaw), 0.0);
}

#[test]
fn bounds_reach_from_least_to_greatest() {
    let corners = vec![
        vector(-100.0, -50.0, 0.0),
        vector(100.0, -50.0, 0.0),
        vector(-100.0, 50.0, 0.0),
        vector(100.0, 50.0, -7.0),
        vector(f32::NAN, f32::NAN, 3.0),
    ];
    let b = Bounds::around(&corners);
    assert_eq!(b.min, vector(-100.0, -50.0, -7.0));
    assert_eq!(b.max, vector(100.0, 50.0, 3.0));
}

#[test]
fn bounds_of_nothing_are_inside_out() {
    let b = Bounds::around(&vec![]);
    assert_eq!(b.min, vector(f32::MAX, f32::MAX, f32::MAX));
    assert_eq!(b.max, vector(f32::MIN, f32::MIN, f32::MIN));
}

#[test]
fn first_place_of_the_pointer_makes_no_motion() {
    let place = |x: f64| Scalar64 { bits: x.to_bits() };
    let mut pointer = AbsolutePointer::new();
    assert!(pointer.moved_to(place(3.0), place(4.0)).is_none());
    let before = pointer.moved_to(place(5.0), place(7.0)).unwrap();
    assert_eq!(before.0.bits, 3.0f64.to_bits());
    assert_eq!(before.1.bits, 4.0f64.to_bits());
}
