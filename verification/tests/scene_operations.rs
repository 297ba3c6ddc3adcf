//! The scene with visuals in it: stacking, selection, states and textures.

use looking_glass_ng::geometry::{Quaternion, Rect, Vector3};
use looking_glass_ng::renderer::{render_scene, DrawCommand};
use looking_glass_ng::scalar::Scalar;
use looking_glass_ng::scene::{
    ContentState, Scene, Transform3D, Visual, VisualContent, VisualId, VisualIds, WindowState,
};

fn s(x: f32) -> Scalar {
    Scalar::from_bits(x.to_bits())
}

fn scene_of(ids: &[u64]) -> Scene<u32> {
    let mut scene: Scene<u32> = Scene::default();
    for n in ids {
        scene.add(Visual::new(
            VisualId(*n),
            VisualContent::ExternalTexture(100 + *n as u32),
            Rect { x: 0, y: 0, w: 8, h: 6 },
        ));
    }
    scene
}

fn order(scene: &Scene<u32>) -> Vec<u64> {
    scene.iter().map(|v| v.id.0).collect()
}

#[test]
fn identities_start_at_one_and_wrap() {
    let mut ids = VisualIds::new();
    assert_eq!(VisualId::next(&mut ids), VisualId(1));
    assert_eq!(VisualId::next(&mut ids), VisualId(2));
    ids.next = u64::MAX;
    assert_eq!(VisualId::next(&mut ids), VisualId(u64::MAX));
    assert_eq!(VisualId::next(&mut ids), VisualId(0));
}

#[test]
fn identities_of_a_source_increase() {
    let mut ids = VisualIds::new();
    let given: Vec<u64> = (0..100).map(|_| VisualId::next(&mut ids).0).collect();
    assert_eq!(given, (1..=100).collect::<Vec<u64>>());
}

#[test]
fn identity_transform() {
    let zero = Vector3 { x: s(0.0), y: s(0.0), z: s(0.0) };
    assert_eq!(
        Transform3D::identity(),
        Transform3D {
            position: zero,
            rotation: Quaternion { s: s(1.0), v: zero },
            scale: Vector3 { x: s(1.0), y: s(1.0), z: s(1.0) },
        }
    );
}

#[test]
fn rotation_without_axis_has_no_angle() {
    assert_eq!(Transform3D::rotation_angle(s(0.9e-6), s(0.7)), s(0.0));
    assert_eq!(Transform3D::rotation_angle(s(1.1e-6), s(0.7)), s(0.7));
    assert_eq!(Transform3D::rotation_angle(s(f32::NAN), s(0.7)), s(0.7));
}

#[test]
fn new_visual_is_ready_and_not_selected() {
    let v = Visual::new(VisualId(3), VisualContent::WaylandSurface(9u32), Rect { x: 1, y: 2, w: 3, h: 4 });
    assert_eq!(v.id, VisualId(3));
    assert_eq!(v.geometry, Rect { x: 1, y: 2, w: 3, h: 4 });
    assert_eq!(v.transform, Transform3D::identity());
    assert!(!v.selected);
    assert_eq!(v.content_state, ContentState::Ready);
    assert_eq!(v.window_state, WindowState::Normal);
    assert_eq!(v.texture(), Some(&9));
}

#[test]
fn texture_can_be_replaced_in_place() {
    let mut v = Visual::new(VisualId(3), VisualContent::WaylandSurface(9u32), Rect { x: 0, y: 0, w: 1, h: 1 });
    *v.texture_mut().unwrap() = 10;
    assert_eq!(v.texture(), Some(&10));
    assert!(matches!(v.content, VisualContent::WaylandSurface(10)));
}

#[test]
fn stacking_moves_one_visual() {
    let mut scene = scene_of(&[1, 2, 3, 4]);
    assert!(scene.bring_to_front(VisualId(2)));
    assert_eq!(order(&scene), [1, 3, 4, 2]);
    assert!(scene.bring_to_front(VisualId(2)));
    assert_eq!(order(&scene), [1, 3, 4, 2]);
    assert!(scene.send_to_back(VisualId(4)));
    assert_eq!(order(&scene), [4, 1, 3, 2]);
    assert!(scene.raise(VisualId(1)));
    assert_eq!(order(&scene), [4, 3, 1, 2]);
    assert!(scene.lower(VisualId(1)));
    assert_eq!(order(&scene), [4, 1, 3, 2]);
    assert!(scene.raise(VisualId(2)));
    assert!(scene.lower(VisualId(4)));
    assert_eq!(order(&scene), [4, 1, 3, 2]);
    assert!(!scene.raise(VisualId(9)));
    assert_eq!(order(&scene), [4, 1, 3, 2]);
}

#[test]
fn selection_marks_only_the_selected() {
    let mut scene = scene_of(&[1, 2, 3]);
    scene.select(Some(VisualId(1)));
    scene.select(Some(VisualId(3)));
    let marks: Vec<bool> = scene.iter().map(|v| v.selected).collect();
    assert_eq!(marks, [false, false, true]);
    scene.select(None);
    assert!(scene.iter().all(|v| !v.selected));
    assert_eq!(scene.selected_id, None);
}

#[test]
fn selecting_again_changes_nothing() {
    let mut scene = scene_of(&[1]);
    scene.select(Some(VisualId(1)));
    scene.get_mut(VisualId(1)).unwrap().selected = false;
    scene.select(Some(VisualId(1)));
    assert!(!scene.visuals[0].selected);
}

#[test]
fn removing_takes_every_visual_of_that_identity() {
    let mut scene = scene_of(&[1, 2, 1, 3]);
    scene.select(Some(VisualId(1)));
    scene.focus(Some(VisualId(1)));
    scene.remove(VisualId(1));
    assert_eq!(order(&scene), [2, 3]);
    assert_eq!(scene.selected_id, None);
    assert_eq!(scene.focused_id, Some(VisualId(1)));
    scene.select(Some(VisualId(2)));
    scene.remove(VisualId(3));
    assert_eq!(scene.selected_id, Some(VisualId(2)));
}

#[test]
fn removing_undoes_adding() {
    let mut scene = scene_of(&[1, 2]);
    scene.add(Visual::new(VisualId(7), VisualContent::ExternalTexture(1), Rect { x: 0, y: 0, w: 1, h: 1 }));
    assert_eq!(order(&scene), [1, 2, 7]);
    scene.remove(VisualId(7));
    assert_eq!(order(&scene), [1, 2]);
}

#[test]
fn visuals_are_found_by_identity() {
    let mut scene = scene_of(&[1, 2]);
    assert_eq!(scene.position(VisualId(2)), Some(1));
    assert_eq!(scene.position(VisualId(3)), None);
    assert!(scene.get_mut(VisualId(3)).is_none());
    scene.get_mut(VisualId(2)).unwrap().geometry.w = 77;
    assert_eq!(scene.visuals[1].geometry.w, 77);
}

#[test]
fn textures_are_replaced_by_identity() {
    let mut scene = scene_of(&[1, 2]);
    assert!(scene.replace_texture(VisualId(2), 5));
    assert!(!scene.replace_texture(VisualId(3), 6));
    let textures: Vec<u32> = scene.iter().map(|v| *v.texture().unwrap()).collect();
    assert_eq!(textures, [101, 5]);
}

#[test]
fn disconnecting_twice_is_disconnecting_once() {
    let mut scene = scene_of(&[1, 2]);
    scene.focus(Some(VisualId(2)));
    assert!(scene.is_active(VisualId(1)));
    scene.disconnect(VisualId(1));
    assert!(!scene.is_active(VisualId(1)));
    assert!(scene.is_active(VisualId(2)));
    assert_eq!(scene.focused_id, Some(VisualId(2)));
    scene.disconnect(VisualId(1));
    assert!(!scene.is_active(VisualId(1)));
    assert_eq!(scene.visuals[0].content_state, ContentState::Disconnected);
    scene.disconnect(VisualId(2));
    assert_eq!(scene.focused_id, None);
}

#[test]
fn window_states_change() {
    let mut scene = scene_of(&[1, 2]);
    assert!(scene.minimize(VisualId(1)));
    assert_eq!(scene.visuals[0].window_state, WindowState::Minimized);
    assert!(scene.maximize(VisualId(1)));
    assert_eq!(scene.visuals[0].window_state, WindowState::Maximized);
    assert_eq!(scene.visuals[1].window_state, WindowState::Normal);
    assert!(scene.restore(VisualId(1)));
    assert_eq!(scene.visuals[0].window_state, WindowState::Normal);
}

#[test]
fn transform_can_be_reset() {
    let mut scene = scene_of(&[1]);
    scene.visuals[0].transform.position.x = s(4.0);
    assert!(scene.reset_transform(VisualId(1)));
    assert_eq!(scene.visuals[0].transform, Transform3D::identity());
}

#[test]
fn textures_are_drawn_whole_at_their_place() {
    let mut scene = scene_of(&[1, 2]);
    scene.visuals[1].geometry = Rect { x: 30, y: 40, w: 1, h: 1 };
    let commands = render_scene(&scene, &vec![(8, 6), (20, 10)]);
    assert_eq!(
        commands,
        [
            DrawCommand {
                src: Rect { x: 0, y: 0, w: 8, h: 6 },
                dest: Rect { x: 0, y: 0, w: 8, h: 6 },
            },
            DrawCommand {
                src: Rect { x: 0, y: 0, w: 20, h: 10 },
                dest: Rect { x: 30, y: 40, w: 20, h: 10 },
            },
        ]
    );
}
