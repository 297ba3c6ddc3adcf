//! Pointer and keyboard events of the compositor.

use looking_glass_ng::compositor::LookingGlass;
use looking_glass_ng::dispatch::{pointer_delivery, ContentRoute, MODE_KEY};
use looking_glass_ng::geometry::Point3;
use looking_glass_ng::input_router::{KeyboardEvent, PointerEventKind};
use looking_glass_ng::scalar::{Scalar, Scalar64};
use looking_glass_ng::scene::{Transform3D, VisualId, VisualIds};

type Glass = LookingGlass<u32, (), &'static str>;

fn s(x: f32) -> Scalar {
    Scalar::from_bits(x.to_bits())
}

fn with_visuals(n: u32) -> Glass {
    let mut glass = Glass::new(VisualIds::new());
    for i in 0..n {
        glass.add_external_visual(i, 100 + i, 50);
    }
    glass
}

fn order(glass: &Glass) -> Vec<u64> {
    glass.scene.iter().map(|v| v.id.0).collect()
}

#[test]
fn press_focuses_raises_and_delivers() {
    let mut glass = with_visuals(3);
    glass.register_input_sink(VisualId(1), "one");
    let route = glass.handle_pointer_down(Some(VisualId(1)), false);
    assert_eq!(glass.scene.selected_id, Some(VisualId(1)));
    assert_eq!(
        route,
        Some(ContentRoute {
            target: VisualId(1),
            transform: Transform3D::identity(),
            width: 100,
            height: 50,
        })
    );
    assert_eq!(glass.scene.focused_id, Some(VisualId(1)));
    assert_eq!(order(&glass), [2, 3, 1]);
    assert!(!glass.dragging);
}

#[test]
fn press_without_receiver_still_focuses() {
    let mut glass = with_visuals(2);
    assert_eq!(glass.handle_pointer_down(Some(VisualId(1)), false), None);
    assert_eq!(glass.scene.focused_id, Some(VisualId(1)));
    assert_eq!(order(&glass), [2, 1]);
}

#[test]
fn press_on_a_visual_that_is_gone() {
    let mut glass = with_visuals(1);
    glass.register_input_sink(VisualId(9), "nine");
    assert_eq!(glass.handle_pointer_down(Some(VisualId(9)), false), None);
    assert_eq!(glass.scene.focused_id, Some(VisualId(9)));
    assert_eq!(order(&glass), [1]);
}

#[test]
fn press_beside_everything_only_deselects() {
    let mut glass = with_visuals(2);
    glass.scene.select(Some(VisualId(1)));
    assert_eq!(glass.handle_pointer_down(None, false), None);
    assert_eq!(glass.scene.selected_id, None);
    assert!(!glass.scene.visuals[0].selected);
    assert_eq!(glass.scene.focused_id, None);
    assert_eq!(order(&glass), [1, 2]);
}

#[test]
fn manipulation_keeps_events_from_content() {
    let mut glass = with_visuals(2);
    glass.register_input_sink(VisualId(1), "one");
    assert_eq!(glass.handle_pointer_down(Some(VisualId(1)), true), None);
    assert!(glass.dragging);
    assert!(glass.scene.visuals[0].selected);
    assert_eq!(glass.scene.focused_id, None);
    assert_eq!(order(&glass), [1, 2]);
    assert_eq!(glass.handle_pointer_up(), None);
    assert!(!glass.dragging);
    let route = glass.handle_pointer_up();
    assert_eq!(route.unwrap().target, VisualId(1));
    assert_eq!(glass.scene.focused_id, None);
    assert_eq!(order(&glass), [1, 2]);
}

#[test]
fn motion_and_scrolling_do_not_focus() {
    let mut glass = with_visuals(2);
    glass.scene.select(Some(VisualId(1)));
    glass.register_input_sink(VisualId(1), "one");
    let step = Scalar64 { bits: 1.0f64.to_bits() };
    for kind in [PointerEventKind::Motion, PointerEventKind::Scroll(step, step)] {
        assert!(glass.route_to_content(kind).is_some());
        assert_eq!(glass.scene.focused_id, None);
    }
}

#[test]
fn pointer_is_delivered_with_route_and_place() {
    let route = ContentRoute {
        target: VisualId(4),
        transform: Transform3D::identity(),
        width: 10,
        height: 20,
    };
    let place = (s(0.25), s(0.75));
    assert_eq!(pointer_delivery(Some(route), Some(place)), Some((VisualId(4), s(0.25), s(0.75))));
    assert_eq!(pointer_delivery(Some(route), None), None);
    assert_eq!(pointer_delivery(None, Some(place)), None);
    assert_eq!(pointer_delivery(None, None), None);
}

#[test]
fn pointer_place_is_noted() {
    let mut glass = Glass::new(VisualIds::new());
    let x = Scalar64 { bits: 3.5f64.to_bits() };
    let y = Scalar64 { bits: 4.5f64.to_bits() };
    glass.handle_pointer_move(x, y, &vec![]);
    assert_eq!(glass.last_mouse.0.bits, x.bits);
    assert_eq!(glass.last_mouse.1.bits, y.bits);
}

#[test]
fn pointer_drags_visuals_along() {
    let mut glass = with_visuals(2);
    let zero = Scalar64 { bits: 0 };
    let mut place = Transform3D::identity();
    place.position.x = s(40.0);
    let moved = vec![(VisualId(2), place), (VisualId(9), place)];
    glass.handle_pointer_move(zero, zero, &moved);
    assert_eq!(glass.scene.visuals[0].transform, Transform3D::identity());
    assert_eq!(glass.scene.visuals[1].transform, place);
    assert_eq!(order(&glass), [1, 2]);
}

#[test]
fn scrolling_by_the_same_amount_is_the_same() {
    let amount = |x: f64| Scalar64 { bits: x.to_bits() };
    let scroll = |x: f64, y: f64| PointerEventKind::Scroll(amount(x), amount(y));
    assert_eq!(scroll(0.0, 1.0), scroll(-0.0, 1.0));
    assert_ne!(scroll(f64::NAN, 1.0), scroll(f64::NAN, 1.0));
    assert_ne!(scroll(1.0, 1.0), scroll(1.0, 2.0));
    assert_ne!(PointerEventKind::Down, PointerEventKind::Up);
    assert_eq!(PointerEventKind::Motion, PointerEventKind::Motion);
}

#[test]
fn keys_go_to_the_focus_alone() {
    let keymap = vec![0, 41, 30];
    let mut glass = with_visuals(2);
    glass.register_input_sink(VisualId(1), "one");
    glass.register_input_sink(VisualId(2), "two");
    assert_eq!(glass.handle_key(10, true, &keymap), None);
    glass.scene.focus(Some(VisualId(1)));
    assert_eq!(
        glass.handle_key(10, true, &keymap),
        Some((VisualId(1), KeyboardEvent { key: 30, pressed: true }))
    );
    glass.scene.focus(Some(VisualId(2)));
    glass.scene.select(Some(VisualId(1)));
    assert_eq!(
        glass.handle_key(10, false, &keymap),
        Some((VisualId(2), KeyboardEvent { key: 30, pressed: false }))
    );
    assert_eq!(glass.handle_key(200, true, &keymap), None);
    glass.scene.focus(Some(VisualId(3)));
    assert_eq!(glass.handle_key(10, true, &keymap), None);
}

#[test]
fn mode_key_is_kept_from_content() {
    let keymap = vec![43; 64];
    let mut glass = with_visuals(1);
    glass.register_input_sink(VisualId(1), "one");
    glass.scene.focus(Some(VisualId(1)));
    assert_eq!(glass.handle_key(MODE_KEY, true, &keymap), None);
    assert!(glass.spatial_mode);
    assert_eq!(glass.handle_key(MODE_KEY, false, &keymap), None);
    assert!(glass.spatial_mode);
    assert_eq!(glass.handle_key(MODE_KEY, true, &keymap), None);
    assert!(!glass.spatial_mode);
    assert!(glass.handle_key(24, true, &keymap).is_some());
    assert!(!glass.spatial_mode);
}

#[test]
fn framing_needs_a_selection_and_a_visual() {
    let eye = Point3 { x: s(1.0), y: s(2.0), z: s(3.0) };
    let mut glass = with_visuals(1);
    let before = glass.camera.position;
    assert!(!glass.frame_selected(Some(eye)));
    glass.scene.select(Some(VisualId(1)));
    assert!(!glass.frame_selected(None));
    assert_eq!(glass.camera.position, before);
    glass.camera.yaw = s(0.5);
    assert!(glass.frame_selected(Some(eye)));
    assert_eq!(glass.camera.position, eye);
    assert_eq!(glass.camera.yaw, s(0.5));
}
