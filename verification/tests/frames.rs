//! One frame: producers, textures, removals, and the camera.

use looking_glass_ng::compositor::LookingGlass;
use looking_glass_ng::frame::{Projection, FLAT_DISTANCE_BITS};
use looking_glass_ng::geometry::Point3;
use looking_glass_ng::producer::FrameResult;
use looking_glass_ng::scalar::Scalar;
use looking_glass_ng::perf::Reading;
use looking_glass_ng::scene::{Transform3D, VisualId, VisualIds};
use std::time::{Duration, Instant};

type Glass = LookingGlass<u32, &'static str, ()>;

fn s(x: f32) -> Scalar {
    Scalar::from_bits(x.to_bits())
}

fn with_producers(names: &[&'static str]) -> Glass {
    let mut glass = Glass::new(VisualIds::new());
    for name in names {
        glass.add_producer(*name, &FrameResult::Updated, Some(0), (4, 4), None);
    }
    glass
}

fn textures(glass: &Glass) -> Vec<(u64, u32)> {
    glass.scene.iter().map(|v| (v.id.0, *v.texture().unwrap())).collect()
}

/// Asks every producer; `answer` tells what it says and which texture it has.
fn ask(
    glass: &mut Glass,
    answer: &dyn Fn(&str) -> (FrameResult, Option<u32>),
) -> (Vec<&'static str>, Vec<VisualId>) {
    let mut pass = glass.begin_render();
    let mut asked = Vec::new();
    while pass.index < glass.producers.len() {
        let name = glass.producers[pass.index].1;
        asked.push(name);
        let (result, texture) = answer(name);
        glass.producer_result(&mut pass, &result, texture, 5);
    }
    glass.render(&mut pass, &vec![]);
    assert!(pass.updates.is_empty());
    (asked, pass.removed)
}

#[test]
fn flat_distance() {
    assert_eq!(FLAT_DISTANCE_BITS, 500.0f32.to_bits());
}

#[test]
fn every_producer_is_asked_once() {
    let mut glass = with_producers(&["a", "b", "c", "d"]);
    let (mut asked, removed) = ask(&mut glass, &|name| match name {
        "a" | "d" => (FrameResult::Finished, None),
        _ => (FrameResult::Unchanged, None),
    });
    asked.sort();
    assert_eq!(asked, ["a", "b", "c", "d"]);
    assert_eq!(removed.len(), 2);
    let left: Vec<&str> = glass.producers.iter().map(|p| p.1).collect();
    assert_eq!(left, ["c", "b"]);
    let mut shown: Vec<u64> = glass.scene.iter().map(|v| v.id.0).collect();
    shown.sort();
    assert_eq!(shown, [2, 3]);
}

#[test]
fn producers_left_are_those_that_did_not_finish() {
    for mask in 0..32u32 {
        let names = ["a", "b", "c", "d", "e"];
        let mut glass = with_producers(&names);
        let finishes = |name: &str| {
            let i = names.iter().position(|n| *n == name).unwrap();
            mask & (1 << i) != 0
        };
        let (mut asked, removed) = ask(&mut glass, &|name| {
            if finishes(name) {
                (FrameResult::Finished, None)
            } else {
                (FrameResult::Unchanged, None)
            }
        });
        asked.sort();
        assert_eq!(asked, names);
        let mut left: Vec<&str> = glass.producers.iter().map(|p| p.1).collect();
        left.sort();
        let want: Vec<&str> = names.iter().copied().filter(|n| !finishes(n)).collect();
        assert_eq!(left, want);
        assert_eq!(removed.len(), mask.count_ones() as usize);
    }
}

#[test]
fn frame_begins_at_the_given_times() {
    let mut glass = with_producers(&["a"]);
    let pass = glass.begin_render_at(Reading { nanos: 77 });
    assert_eq!(pass.started.nanos, 77);
    assert_eq!(pass.index, 0);
    assert_eq!(glass.perf.frame_start, Some(Reading { nanos: 77 }));
    assert_eq!(glass.perf.frame_count, 1);
    let first = glass.begin_render();
    assert_eq!(glass.perf.frame_start, Some(first.started));
    wait(1);
    let second = glass.begin_render();
    assert!(second.started.nanos >= first.started.nanos + 1_000_000);
    assert_eq!(glass.perf.frame_start, Some(second.started));
}

#[test]
fn new_textures_reach_their_visuals() {
    let mut glass = with_producers(&["a", "b", "c", "d"]);
    ask(&mut glass, &|name| match name {
        "a" => (FrameResult::Updated, Some(71)),
        "b" => (FrameResult::Unchanged, Some(72)),
        "c" => (FrameResult::Resized(9, 9), Some(73)),
        _ => (FrameResult::Error("no".to_string()), None),
    });
    assert_eq!(textures(&glass), [(1, 71), (2, 0), (3, 73), (4, 0)]);
    assert_eq!(glass.producers.len(), 4);
}

#[test]
fn last_of_several_textures_stays() {
    let mut glass = with_producers(&["a"]);
    let mut pass = glass.begin_render();
    pass.updates = vec![(VisualId(1), 5), (VisualId(8), 6), (VisualId(1), 7)];
    glass.copy_textures(&mut pass);
    assert_eq!(textures(&glass), [(1, 7)]);
}

#[test]
fn removal_by_itself() {
    let mut glass = with_producers(&["a", "b"]);
    let mut pass = glass.begin_render();
    pass.removed = vec![VisualId(2), VisualId(9)];
    glass.remove_finished(&pass);
    assert_eq!(textures(&glass), [(1, 0)]);
}

/// Lets some time pass.
fn wait(millis: u64) {
    let start = Instant::now();
    while start.elapsed() < Duration::from_millis(millis) {}
}

#[test]
fn frame_time_is_recorded_at_the_end() {
    let mut glass = with_producers(&["a"]);
    glass.perf.record_dropped();
    let mut pass = glass.begin_render();
    wait(5);
    let times = glass.render(&mut pass, &vec![]);
    assert_eq!(glass.perf.consecutive_drops, 1);
    assert!(times.begun.nanos >= pass.started.nanos + 5_000_000);
    assert!(times.begun.nanos <= times.copied.nanos && times.copied.nanos <= times.removed.nanos);
    assert_eq!(glass.perf.clock.latest, times.removed);
    assert_eq!(glass.perf.stages.tex_copy, times.copied.nanos_from(times.begun));
    assert_eq!(glass.perf.stages.remove, times.removed.nanos_from(times.copied));
    assert!(glass.end_render(&pass).is_none());
    let end = glass.perf.clock.latest;
    assert!(end.nanos >= times.removed.nanos);
    assert_eq!(glass.perf.stages.total, end.nanos_from(pass.started));
    assert_eq!(glass.perf.total_frame_time_ns, end.nanos_from(pass.started));
    assert_eq!(glass.perf.frame_count_since_log, 1);
    assert_eq!(glass.perf.consecutive_drops, 0);
    glass.perf.frame_count_since_log = 59;
    let report = glass.end_render(&pass).unwrap();
    assert_eq!(report.frames, 60);
    assert_eq!(glass.perf.stages.total, 0);
    assert_eq!(glass.perf.last_log, glass.perf.clock.latest);
}

#[test]
fn layout_places_what_is_left() {
    let mut glass = with_producers(&["a", "b", "c"]);
    let mut pass = glass.begin_render();
    pass.removed = vec![VisualId(2)];
    let mut place = Transform3D::identity();
    place.position.x = s(7.0);
    let mut other = place;
    other.position.x = s(8.0);
    let start = glass.scene.visuals[2].transform;
    let layout = vec![(VisualId(1), place), (VisualId(2), place), (VisualId(1), other)];
    glass.render(&mut pass, &layout);
    assert_eq!(textures(&glass), [(1, 0), (3, 0)]);
    assert_eq!(glass.scene.visuals[0].transform, other);
    assert_eq!(glass.scene.visuals[1].transform, start);
}

#[test]
fn statistics_follow_the_answers() {
    let mut glass = with_producers(&["a", "b", "c", "d"]);
    ask(&mut glass, &|name| match name {
        "a" => (FrameResult::Updated, Some(71)),
        "b" => (FrameResult::Unchanged, None),
        "c" => (FrameResult::Error("no".to_string()), None),
        _ => (FrameResult::Finished, None),
    });
    assert_eq!(glass.perf.stages.producer_update, 10);
    assert_eq!(glass.perf.consecutive_drops, 1);
    assert_eq!(glass.perf.total_drops, 1);
    assert_eq!(glass.perf.frame_count, 1);
    assert!(glass.perf.frame_start.is_some());
}

#[test]
fn finished_producer_takes_the_selection_with_it() {
    let mut glass = with_producers(&["a", "b"]);
    glass.scene.select(Some(VisualId(1)));
    glass.scene.focus(Some(VisualId(1)));
    ask(&mut glass, &|name| match name {
        "a" => (FrameResult::Finished, None),
        _ => (FrameResult::Unchanged, None),
    });
    assert_eq!(glass.scene.selected_id, None);
    assert_eq!(glass.scene.focused_id, Some(VisualId(1)));
    assert_eq!(textures(&glass), [(2, 0)]);
}

#[test]
fn camera_is_fixed_outside_the_spatial_mode() {
    let mut glass = Glass::new(VisualIds::new());
    glass.camera.yaw = s(0.5);
    glass.camera.pitch = s(0.25);
    glass.camera.position = Point3 { x: s(1.0), y: s(2.0), z: s(3.0) };
    glass.spatial_mode = true;
    glass.prepare_camera();
    assert_eq!(glass.camera.yaw, s(0.5));
    assert_eq!(glass.camera.position, Point3 { x: s(1.0), y: s(2.0), z: s(3.0) });
    assert_eq!(glass.projection(), Projection::Perspective);
    glass.spatial_mode = false;
    glass.prepare_camera();
    assert_eq!(glass.camera.yaw, s(0.0));
    assert_eq!(glass.camera.pitch, s(0.0));
    assert_eq!(glass.camera.position, Point3 { x: s(0.0), y: s(0.0), z: s(500.0) });
    assert_eq!(glass.projection(), Projection::Orthographic);
}

#[test]
fn mode_changes_only_the_presentation() {
    let mut flat = with_producers(&["a", "b"]);
    let mut spatial = with_producers(&["a", "b"]);
    spatial.spatial_mode = true;
    for glass in [&mut flat, &mut spatial] {
        glass.scene.select(Some(VisualId(2)));
        ask(glass, &|name| match name {
            "a" => (FrameResult::Updated, Some(71)),
            _ => (FrameResult::Unchanged, None),
        });
    }
    assert_eq!(textures(&flat), textures(&spatial));
    assert_eq!(flat.scene.selected_id, spatial.scene.selected_id);
    assert_eq!(flat.producers, spatial.producers);
    assert_ne!(flat.camera.position, spatial.camera.position);
}
