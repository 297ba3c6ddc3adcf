//! The scene under many operations, without any texture behind it.

use looking_glass_ng::layout::LayoutMode;
use looking_glass_ng::scene::{Scene, VisualId};
use looking_glass_ng::workspace::Workspace;

type TestScene = Scene<u32>;

fn build_scene(n: usize) -> (TestScene, Vec<VisualId>) {
    let mut scene = TestScene::default();
    let ids: Vec<VisualId> = (0..n)
        .map(|i| {
            let id = VisualId(1000 + i as u64);
            scene.focus(Some(id));
            scene.select(Some(id));
            id
        })
        .collect();
    (scene, ids)
}

#[test]
fn lifecycle_connect_disconnect_reconnect() {
    let mut scene = TestScene::default();
    scene.focus(Some(VisualId(1)));
    scene.select(Some(VisualId(1)));

    scene.disconnect(VisualId(1));
    assert_eq!(scene.focused_id, None, "focus cleared on disconnect");
    assert_eq!(scene.selected_id, Some(VisualId(1)), "selection preserved");

    scene.focus(Some(VisualId(1)));
    assert_eq!(scene.focused_id, Some(VisualId(1)));
}

#[test]
fn lifecycle_multiple_disconnects() {
    let (mut scene, ids) = build_scene(5);

    scene.disconnect(ids[2]);
    assert!(!scene.is_active(ids[2]));

    for i in [0usize, 1, 3, 4] {
        assert!(scene.is_active(ids[i]) == false);
    }

    scene.disconnect(ids[2]);
    assert!(!scene.is_active(ids[2]));
}

#[test]
fn lifecycle_disconnect_all() {
    let (mut scene, ids) = build_scene(3);
    for id in &ids {
        scene.disconnect(*id);
    }
    for id in &ids {
        assert!(!scene.is_active(*id));
    }
}

#[test]
fn spatial_move_rotate_scale_while_updating() {
    let mut scene = TestScene::default();
    scene.focus(Some(VisualId(1)));

    for _ in 0..10 {
        assert!(scene.bring_to_front(VisualId(1)) == false);
        assert!(scene.send_to_back(VisualId(1)) == false);
        assert!(scene.raise(VisualId(1)) == false);
        assert!(scene.lower(VisualId(1)) == false);
        assert!(scene.reset_transform(VisualId(1)) == false);
    }
    assert_eq!(scene.focused_id, Some(VisualId(1)));
}

#[test]
fn spatial_stack_unstack_repeated() {
    let mut scene = TestScene::default();
    for id in 1..=5u64 {
        let vid = VisualId(id);
        scene.select(Some(vid));
        scene.bring_to_front(vid);
    }
    assert_eq!(scene.selected_id, Some(VisualId(5)));
}

#[test]
fn spatial_min_max_restore_cycle() {
    let (mut scene, ids) = build_scene(2);

    assert!(!scene.minimize(ids[0]));
    assert!(!scene.maximize(ids[1]));
    assert!(!scene.restore(ids[0]));
    assert!(!scene.restore(ids[1]));
}

#[test]
fn input_focus_switch_does_not_leak() {
    let mut scene = TestScene::default();

    let a = VisualId(10);
    let b = VisualId(20);
    let c = VisualId(30);

    scene.focus(Some(a));
    assert_eq!(scene.focused_id, Some(a));

    scene.focus(Some(b));
    assert_eq!(scene.focused_id, Some(b), "focus switched to B");
    assert!(scene.focused_id != Some(a), "A no longer focused");

    scene.focus(Some(c));
    assert_eq!(scene.focused_id, Some(c), "focus switched to C");
    assert!(scene.focused_id != Some(b), "B no longer focused");
}

#[test]
fn input_selection_independent_of_focus() {
    let mut scene = TestScene::default();

    let a = VisualId(10);
    let b = VisualId(20);

    scene.select(Some(a));
    scene.focus(Some(b));

    assert_eq!(scene.selected_id, Some(a), "A selected");
    assert_eq!(scene.focused_id, Some(b), "B focused");

    scene.select(Some(b));
    assert_eq!(scene.focused_id, Some(b), "focus unchanged");

    scene.focus(Some(a));
    assert_eq!(scene.selected_id, Some(b), "selection unchanged");
}

#[test]
fn input_drag_does_not_lose_focus() {
    let mut scene = TestScene::default();
    let a = VisualId(10);
    let b = VisualId(20);

    scene.focus(Some(a));
    scene.select(Some(a));

    scene.focus(Some(b));
    scene.select(Some(b));

    assert_eq!(scene.focused_id, Some(b));
    assert_eq!(scene.selected_id, Some(b));
}

#[test]
fn input_keyboard_routing_isolated() {
    let mut scene = TestScene::default();
    let a = VisualId(10);
    let b = VisualId(20);

    scene.focus(Some(a));
    assert_eq!(scene.focused_id, Some(a));

    scene.focus(Some(b));
    assert_eq!(scene.focused_id, Some(b));

    scene.focus(None);
    assert_eq!(scene.focused_id, None);
}

#[test]
fn workspace_switch_mixed_providers() {
    let mut ws1 = Workspace::new();
    let mut ws2 = Workspace::new();

    ws1.layout_mode = LayoutMode::Grid { columns: 2 };
    ws2.layout_mode = LayoutMode::Flat;

    let (l1, l2) = (ws1.layout_mode, ws2.layout_mode);
    assert_ne!(l1, l2);
}

#[test]
fn workspace_switch_preserves_scene_state() {
    let mut scene = TestScene::default();
    let a = VisualId(10);
    scene.focus(Some(a));
    scene.select(Some(a));

    assert_eq!(scene.focused_id, Some(a));
    assert_eq!(scene.selected_id, Some(a));
}

#[test]
fn workspace_rapid_switch() {
    let mut workspaces: Vec<Workspace> = (0..10).map(|_| Workspace::new()).collect();
    for i in 0..10 {
        let idx = i % workspaces.len();
        let ws = &mut workspaces[idx];
        ws.layout_mode = match i % 3 {
            0 => LayoutMode::Freeform,
            1 => LayoutMode::Flat,
            _ => LayoutMode::Grid { columns: 3 },
        };
    }
}

#[test]
fn bench_stacking_100_visuals() {
    let mut scene = TestScene::default();
    let n = 100;
    let ids: Vec<VisualId> = (0..n)
        .map(|i| {
            let vid = VisualId(2000 + i as u64);
            scene.focus(Some(vid));
            vid
        })
        .collect();

    for id in &ids {
        let _ = scene.bring_to_front(*id) == false;
    }
}

#[test]
fn bench_disconnect_50_visuals() {
    let (mut scene, ids) = build_scene(50);
    for id in &ids {
        scene.disconnect(*id);
    }
}

#[test]
fn bench_rapid_focus_switch_100() {
    let mut scene = TestScene::default();
    for i in 0..100u64 {
        scene.focus(Some(VisualId(i)));
    }
    assert_eq!(scene.focused_id, Some(VisualId(99)));
}

#[test]
fn bench_select_focus_interleave_100() {
    let mut scene = TestScene::default();
    for i in 0..100u64 {
        let vid = VisualId(i);
        if i % 2 == 0 {
            scene.select(Some(vid));
        } else {
            scene.focus(Some(vid));
        }
    }
    assert_eq!(scene.selected_id, Some(VisualId(98)));
    assert_eq!(scene.focused_id, Some(VisualId(99)));
}
