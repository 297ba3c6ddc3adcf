//! Picking and the way from the screen to a place on a visual. The geometry is
//! worked out here the way the renderer side does it.

use cgmath::{
    Deg, InnerSpace, Matrix4, Quaternion, Rotation3, SquareMatrix, Vector3, Vector4,
};
use looking_glass_ng::geometry::Rect;
use looking_glass_ng::input_router::{
    classify_pointer_target, evdev_code, keyboard_event, screen_to_visual_uv, uv_to_pixels,
    InteractionTarget, KeyboardEvent,
};
use looking_glass_ng::picking::{pick_visual, pick_visual_items, RayProbe};
use looking_glass_ng::scalar::Scalar;
use looking_glass_ng::scene::{
    Scene, Visual, VisualContent, VisualId, HALF_BITS, NO_AXIS_BITS, ONE_BITS, PARALLEL_BITS,
};

fn s(x: f32) -> Scalar {
    Scalar::from_bits(x.to_bits())
}

fn f(x: Scalar) -> f32 {
    f32::from_bits(x.bits)
}

struct Place {
    position: Vector3<f32>,
    rotation: Quaternion<f32>,
    scale: Vector3<f32>,
}

fn identity() -> Place {
    Place {
        position: Vector3::new(0.0, 0.0, 0.0),
        rotation: Quaternion::from_angle_z(Deg(0.0)),
        scale: Vector3::new(1.0, 1.0, 1.0),
    }
}

/// The ray through a point of the screen, in the frame of a visual.
fn probe(proj_view: &Matrix4<f32>, ndc_x: f32, ndc_y: f32, at: &Place, w: f32, h: f32) -> RayProbe {
    let inv_pv = proj_view.invert().unwrap_or(Matrix4::identity());
    let near = inv_pv * Vector4::new(ndc_x, ndc_y, -1.0, 1.0);
    let far = inv_pv * Vector4::new(ndc_x, ndc_y, 1.0, 1.0);
    let near = Vector3::new(near.x / near.w, near.y / near.w, near.z / near.w);
    let far = Vector3::new(far.x / far.w, far.y / far.w, far.z / far.w);
    let dir = (far - near).normalize();

    let model = Matrix4::from_translation(at.position)
        * Matrix4::from(at.rotation)
        * Matrix4::from_nonuniform_scale(w * at.scale.x, h * at.scale.y, 1.0);
    let inv_model = model.invert().unwrap_or(Matrix4::identity());
    let local_origin = inv_model * Vector4::new(near.x, near.y, near.z, 1.0);
    let local_dir = inv_model * Vector4::new(dir.x, dir.y, dir.z, 0.0);
    let lo = Vector3::new(local_origin.x, local_origin.y, local_origin.z) / local_origin.w;
    let ld = Vector3::new(local_dir.x, local_dir.y, local_dir.z);
    let t = -lo.z / ld.z;
    let hit = lo + ld * t;
    let world = model * Vector4::new(hit.x, hit.y, 0.0, 1.0);
    let world = Vector3::new(world.x, world.y, world.z) / world.w;
    RayProbe {
        slope: s(ld.z),
        t: s(t),
        hit_x: s(hit.x),
        hit_y: s(hit.y),
        distance: s((world - near).magnitude()),
    }
}

fn look(eye: (f32, f32, f32), center: (f32, f32, f32)) -> Matrix4<f32> {
    let view = Matrix4::look_at_rh(
        cgmath::Point3::new(eye.0, eye.1, eye.2),
        cgmath::Point3::new(center.0, center.1, center.2),
        Vector3::new(0.0, 1.0, 0.0),
    );
    let proj = cgmath::ortho(-320.0, 320.0, -240.0, 240.0, 1.0, 1000.0);
    proj * view
}

fn straight() -> Matrix4<f32> {
    look((0.0, 0.0, 500.0), (0.0, 0.0, 0.0))
}

fn uv(pv: &Matrix4<f32>, ndc_x: f32, ndc_y: f32, at: &Place, w: f32, h: f32) -> Option<(f64, f64)> {
    let p = probe(pv, ndc_x, ndc_y, at, w, h);
    let u = s(f(p.hit_x) + 0.5);
    let v = s(1.0 - (f(p.hit_y) + 0.5));
    screen_to_visual_uv(&p, u, v).map(|(u, v)| (f(u) as f64, f(v) as f64))
}

fn approx_eq(a: f64, b: f64, eps: f64) -> bool {
    (a - b).abs() < eps
}

#[test]
fn scene_numbers() {
    assert_eq!(ONE_BITS, 1.0f32.to_bits());
    assert_eq!(HALF_BITS, 0.5f32.to_bits());
    assert_eq!(PARALLEL_BITS, 1e-8f32.to_bits());
    assert_eq!(NO_AXIS_BITS, 1e-6f32.to_bits());
}

#[test]
fn pick_center_hit() {
    let items = vec![(VisualId(1), probe(&straight(), 0.0, 0.0, &identity(), 200.0, 100.0))];
    let r = pick_visual_items(&items);
    assert!(r.is_some(), "should hit center");
    assert_eq!(r.unwrap().0, VisualId(1));
}

#[test]
fn pick_miss() {
    let items = vec![(VisualId(1), probe(&straight(), -0.9, 0.9, &identity(), 200.0, 100.0))];
    let r = pick_visual_items(&items);
    assert!(r.is_none(), "should miss when pointing at corner");
}

#[test]
fn pick_depth_wins() {
    let behind = Place { position: Vector3::new(0.0, 0.0, -200.0), ..identity() };
    let items = vec![
        (VisualId(1), probe(&straight(), 0.0, 0.0, &identity(), 200.0, 100.0)),
        (VisualId(2), probe(&straight(), 0.0, 0.0, &behind, 200.0, 100.0)),
    ];
    let r = pick_visual_items(&items);
    assert!(r.is_some(), "should hit something");
    assert_eq!(r.unwrap().0, VisualId(1), "should pick closer visual (z=0 vs z=-200)");

    let swapped = vec![items[1], items[0]];
    assert_eq!(pick_visual_items(&swapped).unwrap().0, VisualId(1));
}

#[test]
fn pick_rotated() {
    let turned = Place { rotation: Quaternion::from_angle_y(Deg(45.0)), ..identity() };
    let items = vec![(VisualId(1), probe(&straight(), 0.0, 0.0, &turned, 200.0, 100.0))];
    let r = pick_visual_items(&items);
    assert!(r.is_some(), "should hit rotated visual at center");
}

#[test]
fn pick_still_works_after_camera_move() {
    let at = Place { position: Vector3::new(100.0, 50.0, 0.0), ..identity() };
    let pv = look((50.0, 25.0, 500.0), (50.0, 25.0, 0.0));
    let items = vec![(VisualId(1), probe(&pv, 0.0, 0.0, &at, 200.0, 100.0))];
    let r = pick_visual_items(&items);
    assert!(r.is_some(), "should hit after camera move");
}

fn plain(slope: f32, t: f32, x: f32, y: f32, distance: f32) -> RayProbe {
    RayProbe { slope: s(slope), t: s(t), hit_x: s(x), hit_y: s(y), distance: s(distance) }
}

#[test]
fn hits_end_at_the_edge() {
    assert!(plain(1.0, 0.0, 0.5, -0.5, 1.0).is_hit());
    assert!(!plain(1.0, 0.0, 0.50001, 0.0, 1.0).is_hit());
    assert!(!plain(1.0, 0.0, 0.0, -0.50001, 1.0).is_hit());
    assert!(!plain(1.0, -0.001, 0.0, 0.0, 1.0).is_hit());
    assert!(plain(1.0, -0.0, 0.0, 0.0, 1.0).is_hit());
    assert!(!plain(0.0, 1.0, 0.0, 0.0, 1.0).is_hit());
    assert!(!plain(-0.9e-8, 1.0, 0.0, 0.0, 1.0).is_hit());
    assert!(plain(-1.1e-8, 1.0, 0.0, 0.0, 1.0).is_hit());
    assert!(plain(f32::NAN, f32::NAN, f32::NAN, f32::NAN, 1.0).is_hit());
}

#[test]
fn first_of_equally_near_hits_counts() {
    let items = vec![
        (VisualId(1), plain(1.0, 1.0, 0.0, 0.0, 9.0)),
        (VisualId(2), plain(1.0, 1.0, 0.0, 0.0, 5.0)),
        (VisualId(3), plain(1.0, 1.0, 0.0, 0.0, 5.0)),
        (VisualId(4), plain(1.0, 1.0, 2.0, 0.0, 1.0)),
    ];
    let (id, distance) = pick_visual_items(&items).unwrap();
    assert_eq!(id, VisualId(2));
    assert_eq!(f(distance), 5.0);
}

#[test]
fn distances_that_are_no_numbers_replace_and_are_replaced() {
    let items = vec![
        (VisualId(1), plain(1.0, 1.0, 0.0, 0.0, 1.0)),
        (VisualId(2), plain(1.0, 1.0, 0.0, 0.0, f32::NAN)),
        (VisualId(3), plain(1.0, 1.0, 0.0, 0.0, 8.0)),
    ];
    assert_eq!(pick_visual_items(&items).unwrap().0, VisualId(3));
}

#[test]
fn scene_picks_by_its_visuals() {
    let mut scene: Scene<u32> = Scene::default();
    for n in [11u64, 12] {
        scene.add(Visual::new(
            VisualId(n),
            VisualContent::WaylandSurface(0),
            Rect { x: 0, y: 0, w: 200, h: 100 },
        ));
    }
    let probes = vec![plain(1.0, 1.0, 0.0, 0.0, 9.0), plain(1.0, 1.0, 0.25, 0.0, 4.0)];
    assert_eq!(scene.pick(&probes).unwrap(), (VisualId(12), s(4.0)));
    assert_eq!(pick_visual(&scene.visuals, &probes).unwrap(), (VisualId(12), s(4.0)));
    let misses = vec![plain(1.0, -1.0, 0.0, 0.0, 9.0), plain(1.0, 1.0, 0.75, 0.0, 4.0)];
    assert!(scene.pick(&misses).is_none());
}

#[test]
fn classify_modifier_returns_scene() {
    let scene: Scene<u32> = Scene::default();
    assert_eq!(classify_pointer_target(&scene, true, false, false), InteractionTarget::Scene);
    assert_eq!(classify_pointer_target(&scene, false, true, false), InteractionTarget::Scene);
    assert_eq!(classify_pointer_target(&scene, false, false, true), InteractionTarget::Scene);
}

#[test]
fn classify_no_selection_returns_scene() {
    let scene: Scene<u32> = Scene::default();
    assert_eq!(classify_pointer_target(&scene, false, false, false), InteractionTarget::Scene);
}

#[test]
fn classify_selection_returns_content() {
    let mut scene: Scene<u32> = Scene::default();
    scene.select(Some(VisualId(4)));
    assert_eq!(
        classify_pointer_target(&scene, false, false, false),
        InteractionTarget::Content(VisualId(4))
    );
    assert_eq!(classify_pointer_target(&scene, true, false, false), InteractionTarget::Scene);
}

#[test]
fn screen_to_uv_center() {
    let uv = uv(&straight(), 0.0, 0.0, &identity(), 200.0, 100.0);
    assert!(uv.is_some(), "should hit center of 200x100 quad");
    let (u, v) = uv.unwrap();
    assert!(approx_eq(u, 0.5, 1e-4), "u should be ~0.5, got {}", u);
    assert!(approx_eq(v, 0.5, 1e-4), "v should be ~0.5, got {}", v);
}

#[test]
fn screen_to_uv_corner() {
    let ndc_x = -100.0 / 320.0;
    let ndc_y = 50.0 / 240.0;
    let uv = uv(&straight(), ndc_x, ndc_y, &identity(), 200.0, 100.0);
    assert!(uv.is_some(), "should hit near top-left of 200x100 quad");
    let (u, v) = uv.unwrap();
    assert!(u < 0.1, "u should be near 0 (top-left), got {}", u);
    assert!(v < 0.1, "v should be near 0 (top-left), got {}", v);
}

#[test]
fn screen_to_uv_rotated_visual() {
    let turned = Place { rotation: Quaternion::from_angle_y(Deg(45.0)), ..identity() };
    let uv = uv(&straight(), 0.0, 0.0, &turned, 200.0, 100.0);
    assert!(uv.is_some(), "should hit rotated visual at center");
    let (u, v) = uv.unwrap();
    assert!(approx_eq(u, 0.5, 1e-4), "u should be ~0.5, got {}", u);
    assert!(approx_eq(v, 0.5, 1e-4), "v should be ~0.5, got {}", v);
}

#[test]
fn screen_to_uv_scaled_visual() {
    let scaled = Place { scale: Vector3::new(2.0, 2.0, 1.0), ..identity() };
    let center = uv(&straight(), 0.0, 0.0, &scaled, 200.0, 100.0);
    assert!(center.is_some(), "should hit scaled visual at center");
    let (u, v) = center.unwrap();
    assert!(approx_eq(u, 0.5, 1e-4), "u should be ~0.5, got {}", u);
    assert!(approx_eq(v, 0.5, 1e-4), "v should be ~0.5, got {}", v);

    let (u, _) = uv(&straight(), 150.0 / 320.0, 0.0, &scaled, 200.0, 100.0).unwrap();
    assert!(approx_eq(u, 0.875, 1e-4), "u should be ~0.875, got {}", u);
}

#[test]
fn screen_to_uv_miss_outside() {
    let uv = uv(&straight(), -0.9, 0.9, &identity(), 200.0, 100.0);
    assert!(uv.is_none(), "should miss when pointing at far corner");
}

#[test]
fn rounding_does_not_leave_the_visual() {
    let p = plain(1.0, 1.0, 0.5, -0.5, 1.0);
    assert_eq!(screen_to_visual_uv(&p, s(1.0000001), s(-0.0000001)), Some((s(1.0), s(0.0))));
    assert_eq!(screen_to_visual_uv(&p, s(0.25), s(0.75)), Some((s(0.25), s(0.75))));
}

/// A place on a visual in pixels, the way the renderer side works it out.
fn pixels(u: f64, v: f64, width: u32, height: u32) -> (u32, u32) {
    uv_to_pixels((u * width as f64) as u32, (v * height as f64) as u32, width, height)
}

#[test]
fn uv_to_pixel_center() {
    let (px, py) = pixels(0.5, 0.5, 1920, 1080);
    assert_eq!(px, 960);
    assert_eq!(py, 540);
}

#[test]
fn uv_to_pixel_corner() {
    let (px, py) = pixels(0.0, 0.0, 1920, 1080);
    assert_eq!(px, 0);
    assert_eq!(py, 0);
}

#[test]
fn uv_to_pixel_edge_clamp() {
    let (px, py) = pixels(1.0, 1.0, 1920, 1080);
    assert_eq!(px, 1919);
    assert_eq!(py, 1079);
}

#[test]
fn pixels_of_an_empty_visual() {
    assert_eq!(uv_to_pixels(3, 4, 0, 0), (0, 0));
}

#[test]
fn key_codes_lose_their_offset() {
    assert_eq!(evdev_code(9), 1);
    assert_eq!(evdev_code(8), 8);
    assert_eq!(evdev_code(0), 0);
    assert_eq!(evdev_code(23), 15);
}

#[test]
fn keys_without_an_entry_make_no_event() {
    let keymap = vec![0, 41, 30];
    assert_eq!(keyboard_event(9, true, &keymap), Some(KeyboardEvent { key: 41, pressed: true }));
    assert_eq!(keyboard_event(10, false, &keymap), Some(KeyboardEvent { key: 30, pressed: false }));
    assert_eq!(keyboard_event(0, true, &keymap), None);
    assert_eq!(keyboard_event(11, true, &keymap), None);
}
