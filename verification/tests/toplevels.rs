//! Toplevel windows and the visuals that come from them, from producers and
//! from elsewhere.

use looking_glass_ng::compositor::{
    benchmark_cell, buffer_damage, damage_scales, grid_fits, CommitPlan, Damage, GridCell,
    LookingGlass, Placement,
    SurfaceId, SurfaceLifecycle, SurfaceMetadata, ToplevelInfo, PRODUCER_HEIGHT_BITS,
    WINDOW_HEIGHT_BITS, WINDOW_WIDTH_BITS,
};
use looking_glass_ng::geometry::{Quaternion, Rect, Vector3};
use looking_glass_ng::layout::LayoutMode;
use looking_glass_ng::producer::FrameResult;
use looking_glass_ng::scalar::Scalar;
use looking_glass_ng::scene::{Transform3D, VisualContent, VisualId, VisualIds};

type Glass = LookingGlass<u32, &'static str, &'static str>;

fn s(x: f32) -> Scalar {
    Scalar::from_bits(x.to_bits())
}

fn names(title: &str, app_id: &str) -> Option<SurfaceMetadata> {
    Some(SurfaceMetadata { title: Some(title.to_string()), app_id: Some(app_id.to_string()) })
}

fn somewhere() -> (Vector3, Quaternion) {
    let t = Transform3D::identity();
    (Vector3 { x: s(1.0), y: s(2.0), z: s(3.0) }, t.rotation)
}

fn with_toplevels(n: u64) -> Glass {
    let mut glass = Glass::new(VisualIds::new());
    for i in 0..n {
        let alive = vec![true; glass.toplevels.len()];
        glass.new_toplevel(&alive, SurfaceId(i), names("title", "app"));
    }
    glass
}

#[test]
fn compositor_numbers() {
    assert_eq!(WINDOW_WIDTH_BITS, 1280.0f32.to_bits());
    assert_eq!(WINDOW_HEIGHT_BITS, 720.0f32.to_bits());
    assert_eq!(PRODUCER_HEIGHT_BITS, 200.0f32.to_bits());
}

#[test]
fn new_compositor_is_empty() {
    let glass = Glass::new(VisualIds::new());
    assert!(glass.toplevels.is_empty());
    assert!(glass.scene.visuals.is_empty());
    assert!(glass.producers.is_empty());
    assert!(glass.input_sinks.is_empty());
    assert!(!glass.spatial_mode);
    assert!(!glass.dragging);
    assert_eq!(glass.layout_mode, LayoutMode::Freeform);
    assert_eq!(glass.window_size, (s(1280.0), s(720.0)));
    assert_eq!(glass.last_mouse.0.bits, 0);
    assert_eq!(glass.perf.frame_count, 0);
    assert_eq!((glass.perf.consecutive_drops, glass.perf.total_drops), (0, 0));
    assert_eq!(glass.perf.stages.total, 0);
}

#[test]
fn identities_go_on_where_the_source_is() {
    let mut first = Glass::new(VisualIds::new());
    assert_eq!(first.add_external_visual(1, 1, 1), VisualId(1));
    assert_eq!(first.add_external_visual(2, 1, 1), VisualId(2));
    let mut second = Glass::new(first.ids);
    assert_eq!(second.add_external_visual(3, 1, 1), VisualId(3));
}

#[test]
fn toplevel_can_be_copied() {
    let info = ToplevelInfo::new(SurfaceId(4), names("a", "b"));
    let copy = info.clone();
    assert_eq!(copy.title, info.title);
    assert_eq!(copy.surface, info.surface);
}

#[test]
fn toplevel_without_metadata_has_no_names() {
    let info = ToplevelInfo::new(SurfaceId(4), None);
    assert_eq!(info.title, "");
    assert_eq!(info.app_id, "");
    assert_eq!(info.lifecycle, SurfaceLifecycle::Created);
    let half = Some(SurfaceMetadata { title: None, app_id: Some("app".to_string()) });
    let info = ToplevelInfo::new(SurfaceId(4), half);
    assert_eq!(info.title, "");
    assert_eq!(info.app_id, "app");
}

#[test]
fn refreshing_without_metadata_keeps_the_names() {
    let mut info = ToplevelInfo::new(SurfaceId(4), names("a", "b"));
    info.refresh_metadata(None);
    assert_eq!((info.title.as_str(), info.app_id.as_str()), ("a", "b"));
    info.refresh_metadata(names("c", "d"));
    assert_eq!((info.title.as_str(), info.app_id.as_str()), ("c", "d"));
}

#[test]
fn new_toplevel_is_configured_after_cleanup() {
    let mut glass = with_toplevels(3);
    glass.new_toplevel(&vec![true, false, true], SurfaceId(9), names("last", "app"));
    let surfaces: Vec<u64> = glass.toplevels.iter().map(|t| t.surface.0).collect();
    assert_eq!(surfaces, [0, 2, 9]);
    let info = &glass.toplevels[2];
    assert_eq!(info.lifecycle, SurfaceLifecycle::Configured);
    assert_eq!(info.title, "last");
    assert_eq!(info.visual_id, None);
    assert_eq!(info.size, None);
}

#[test]
fn cleanup_keeps_the_living_in_order() {
    let mut glass = with_toplevels(4);
    glass.cleanup(&vec![false, true, true, false]);
    let surfaces: Vec<u64> = glass.toplevels.iter().map(|t| t.surface.0).collect();
    assert_eq!(surfaces, [1, 2]);
    glass.cleanup(&vec![true, true]);
    assert_eq!(glass.toplevels.len(), 2);
    glass.cleanup(&vec![false, false]);
    assert!(glass.toplevels.is_empty());
}

#[test]
fn first_content_is_placed_by_number() {
    let glass = with_toplevels(5);
    let places: Vec<CommitPlan> = (0..5).map(|i| glass.plan_commit(SurfaceId(i))).collect();
    assert_eq!(
        places,
        [
            CommitPlan::Show(Placement { x: -40, z: -200, angle_y: 5 }),
            CommitPlan::Show(Placement { x: -20, z: 0, angle_y: 0 }),
            CommitPlan::Show(Placement { x: 0, z: 200, angle_y: -5 }),
            CommitPlan::Show(Placement { x: 20, z: 150, angle_y: 0 }),
            CommitPlan::Show(Placement { x: 40, z: 200, angle_y: 0 }),
        ]
    );
    assert_eq!(glass.plan_commit(SurfaceId(77)), CommitPlan::Ignore);
}

#[test]
fn first_content_shows_a_toplevel_and_later_content_updates_it() {
    let mut glass = with_toplevels(2);
    let (position, rotation) = somewhere();
    let id = glass.handle_commit(SurfaceId(1), 55, (640, 480), position, rotation).unwrap();
    assert_eq!(id, VisualId(1));
    let info = &glass.toplevels[1];
    assert_eq!(info.lifecycle, SurfaceLifecycle::Mapped);
    assert_eq!(info.size, Some((640, 480)));
    assert_eq!(info.visual_id, Some(id));
    assert_eq!(glass.toplevels[0].lifecycle, SurfaceLifecycle::Configured);
    let v = &glass.scene.visuals[0];
    assert_eq!(v.geometry, Rect { x: 0, y: 0, w: 640, h: 480 });
    assert_eq!(v.transform.position, position);
    assert!(matches!(v.content, VisualContent::WaylandSurface(55)));

    assert_eq!(glass.plan_commit(SurfaceId(1)), CommitPlan::Update);
    assert_eq!(glass.handle_commit(SurfaceId(1), 56, (1, 1), position, rotation), None);
    assert_eq!(glass.scene.visuals.len(), 1);
    assert_eq!(glass.scene.visuals[0].texture(), Some(&56));
    assert_eq!(glass.toplevels[1].size, Some((640, 480)));
}

#[test]
fn content_of_other_surfaces_is_ignored() {
    let mut glass = with_toplevels(1);
    let (position, rotation) = somewhere();
    assert_eq!(glass.handle_commit(SurfaceId(5), 1, (1, 1), position, rotation), None);
    assert!(glass.scene.visuals.is_empty());
}

#[test]
fn names_follow_the_client() {
    let mut glass = with_toplevels(1);
    assert!(!glass.title_changed(SurfaceId(0), names("title", "app")));
    assert!(glass.title_changed(SurfaceId(0), names("other", "app")));
    assert_eq!(glass.toplevels[0].title, "other");
    assert!(!glass.app_id_changed(SurfaceId(0), names("third", "app")));
    assert_eq!(glass.toplevels[0].title, "third");
    assert!(glass.app_id_changed(SurfaceId(0), names("third", "new")));
    assert!(!glass.title_changed(SurfaceId(0), None));
    assert!(!glass.title_changed(SurfaceId(8), names("x", "y")));
    assert_eq!(glass.toplevels[0].app_id, "new");
}

#[test]
fn destroying_undoes_showing() {
    let mut glass = with_toplevels(2);
    let (position, rotation) = somewhere();
    let id = glass.handle_commit(SurfaceId(0), 55, (4, 4), position, rotation);
    glass.scene.select(id);
    let info = glass.toplevel_destroyed(SurfaceId(0)).unwrap();
    assert_eq!(info.visual_id, id);
    assert_eq!(glass.toplevels.len(), 1);
    assert!(glass.scene.visuals.is_empty());
    assert_eq!(glass.scene.selected_id, None);
    assert!(glass.toplevel_destroyed(SurfaceId(0)).is_none());
    assert!(glass.toplevel_destroyed(SurfaceId(1)).is_some());
}

#[test]
fn damage_is_scaled_to_the_buffer() {
    let r = Rect { x: 1, y: -2, w: 3, h: 4 };
    let damage = vec![Damage::Buffer(r), Damage::Surface(r)];
    let twice = Rect { x: 2, y: -4, w: 6, h: 8 };
    assert_eq!(buffer_damage(&damage, 2), [r, twice]);
    assert_eq!(buffer_damage(&damage, 0), [r, r]);
    assert_eq!(buffer_damage(&damage, -3), [r, r]);
    assert!(buffer_damage(&vec![], 2).is_empty());
}

#[test]
fn damage_that_does_not_fit_is_recognised() {
    let r = Rect { x: 1, y: 2, w: i32::MAX / 2, h: 4 };
    assert!(damage_scales(&vec![Damage::Surface(r)], 2));
    assert!(!damage_scales(&vec![Damage::Surface(r)], 3));
    assert!(damage_scales(&vec![Damage::Buffer(r)], 3));
    let low = Rect { x: i32::MIN, y: 0, w: 0, h: 0 };
    assert!(damage_scales(&vec![Damage::Surface(low)], -5));
    assert!(!damage_scales(&vec![Damage::Buffer(r), Damage::Surface(low)], 2));
    assert!(damage_scales(&vec![], i32::MAX));
}

#[test]
fn grids_that_do_not_fit_are_recognised() {
    assert!(grid_fits(5, 16, 4));
    assert!(!grid_fits(0, 0, 0));
    assert!(!grid_fits(0, 1, -1));
    assert!(grid_fits(0, 1, i32::MAX / 160));
    assert!(!grid_fits(0, 1, i32::MAX / 160 + 1));
    assert!(!grid_fits(i32::MAX as usize, 1, 1));
    assert!(!grid_fits(0, i32::MAX as usize, 1));
}

#[test]
fn external_visual_stands_at_the_origin() {
    let mut glass = Glass::new(VisualIds::new());
    let id = glass.add_external_visual(5, 32, 16);
    let v = &glass.scene.visuals[0];
    assert_eq!(v.id, id);
    assert_eq!(v.geometry, Rect { x: 0, y: 0, w: 32, h: 16 });
    assert_eq!(v.transform, Transform3D::identity());
    assert!(matches!(v.content, VisualContent::ExternalTexture(5)));
    assert_eq!(glass.add_external_visual(6, 1, 1), VisualId(2));
}

#[test]
fn benchmark_grid() {
    assert_eq!(benchmark_cell(0, 16, 4), GridCell { x: -320, y: -320, turned: false });
    assert_eq!(benchmark_cell(5, 16, 4), GridCell { x: -160, y: -160, turned: true });
    assert_eq!(benchmark_cell(11, 16, 4), GridCell { x: 160, y: 0, turned: false });
    assert_eq!(benchmark_cell(0, 10, 4), GridCell { x: -320, y: -160, turned: false });
    assert_eq!(benchmark_cell(4, 5, 3), GridCell { x: -80, y: 80, turned: true });
}

#[test]
fn benchmark_producer_must_start_unchanged() {
    let (position, rotation) = somewhere();
    for first in [
        FrameResult::Updated,
        FrameResult::Resized(1, 1),
        FrameResult::Error("no".to_string()),
        FrameResult::Finished,
    ] {
        let mut glass = Glass::new(VisualIds::new());
        assert_eq!(
            glass.add_benchmark_visual("p", &first, Some(1), (8, 8), position, rotation),
            None
        );
        assert!(glass.producers.is_empty());
    }
    let mut glass = Glass::new(VisualIds::new());
    let id = glass
        .add_benchmark_visual("p", &FrameResult::Unchanged, Some(1), (8, 9), position, rotation)
        .unwrap();
    assert_eq!(glass.producers, [(id, "p")]);
    assert_eq!(glass.scene.visuals[0].geometry, Rect { x: 0, y: 0, w: 8, h: 9 });
    assert_eq!(glass.scene.visuals[0].transform.position, position);
}

#[test]
fn producer_is_registered_with_its_sink() {
    let mut glass = Glass::new(VisualIds::new());
    let id = glass.add_producer("p", &FrameResult::Updated, Some(1), (8, 9), Some("sink")).unwrap();
    assert_eq!(glass.producers, [(id, "p")]);
    assert_eq!(glass.input_sinks.get(&id.0), Some(&"sink"));
    let v = &glass.scene.visuals[0];
    assert_eq!(v.transform.position, Vector3 { x: s(0.0), y: s(200.0), z: s(0.0) });
    assert_eq!(v.geometry, Rect { x: 0, y: 0, w: 8, h: 9 });
    assert!(glass.add_producer("q", &FrameResult::Unchanged, Some(2), (1, 1), None).is_some());
    assert!(glass.add_producer("r", &FrameResult::Resized(1, 1), Some(3), (1, 1), None).is_some());
    assert_eq!(glass.input_sinks.len(), 1);
}

#[test]
fn producer_that_fails_at_first_is_not_registered() {
    let mut glass = Glass::new(VisualIds::new());
    let error = FrameResult::Error("no device".to_string());
    assert_eq!(glass.add_producer("p", &error, None, (0, 0), Some("sink")), None);
    assert_eq!(glass.add_producer("p", &FrameResult::Finished, None, (0, 0), None), None);
    assert!(glass.producers.is_empty());
    assert!(glass.scene.visuals.is_empty());
    assert!(glass.input_sinks.is_empty());
    assert_eq!(glass.ids.next, 1);
}
