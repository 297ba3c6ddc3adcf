//! The camera and how input moves it.
//!
//! The renderer side computes where a motion would take the camera; here it is
//! decided what of that the camera takes on.

use crate::geometry::{Point3, Vector3};
use crate::scalar::{
    lemma_negative_below_positive, lemma_units_of_pattern, Scalar, Scalar64,
};
use crate::scene::Scene;
use vstd::arithmetic::power2::{lemma2_to64, pow2};
use vstd::prelude::*;
use vstd::std_specs::cmp::{PartialEqSpec, PartialEqSpecImpl};

verus! {

/// Bit pattern of 800, the distance of the camera to begin with.
pub const EYE_DISTANCE_BITS: u32 = 0x4448_0000;

/// Bit pattern of 10, the walking speed to begin with.
pub const SPEED_BITS: u32 = 0x4120_0000;

/// Bit pattern of 0.005, the turning speed to begin with.
pub const SENSITIVITY_BITS: u32 = 0x3ba3_d70a;

/// Bit pattern of 50, the zooming speed to begin with.
pub const ZOOM_SPEED_BITS: u32 = 0x4248_0000;

/// Bit pattern of 1.5, the steepest pitch in radians.
pub const PITCH_LIMIT_BITS: u32 = 0x3fc0_0000;

/// Bit pattern of -1.5.
pub const PITCH_LOW_BITS: u32 = 0xbfc0_0000;

/// Bit pattern of 10000, how far zooming may take the camera from the scene.
pub const ZOOM_LIMIT_BITS: u32 = 0x461c_4000;

/// Bit pattern of -10000.
pub const ZOOM_LOW_BITS: u32 = 0xc61c_4000;

/// Bit pattern of the greatest finite number.
pub const LARGEST_BITS: u32 = 0x7f7f_ffff;

/// Bit pattern of the least finite number.
pub const SMALLEST_BITS: u32 = 0xff7f_ffff;

/// Number of bookmark slots.
pub const BOOKMARK_SLOTS: usize = 10;

/// A camera position and direction.
#[derive(Debug, Clone, Copy)]
pub struct CameraView {
    pub position: Point3,
    pub yaw: Scalar,
    pub pitch: Scalar,
}

impl CameraView {
    /// Position, yaw and pitch are the same numbers.
    pub open spec fn same(self, other: CameraView) -> bool {
        self.position.same(other.position) && self.yaw.same(other.yaw) && self.pitch.same(
            other.pitch,
        )
    }
}

impl PartialEq for CameraView {
    fn eq(&self, other: &CameraView) -> (r: bool) {
        self.position == other.position && self.yaw == other.yaw && self.pitch == other.pitch
    }
}

impl PartialEqSpecImpl for CameraView {
    open spec fn obeys_eq_spec() -> bool {
        true
    }

    open spec fn eq_spec(&self, other: &CameraView) -> bool {
        self.same(*other)
    }
}

/// The camera, with bookmarked views.
#[derive(Debug, Clone)]
pub struct Camera {
    pub position: Point3,
    pub yaw: Scalar,
    pub pitch: Scalar,
    pub speed: Scalar,
    pub sensitivity: Scalar,
    pub zoom_speed: Scalar,
    pub bookmarks: [Option<CameraView>; 10],
}

/// What a key does to the camera.
#[derive(Debug, Clone, Copy, PartialEq, Eq, Structural)]
pub enum CameraAction {
    Nothing,
    Forward,
    Backward,
    StrafeLeft,
    StrafeRight,
    Down,
    Up,
    TurnLeft,
    TurnRight,
    LookUp,
    LookDown,
}

impl Camera {
    /// Position and direction.
    pub open spec fn view(&self) -> CameraView {
        CameraView { position: self.position, yaw: self.yaw, pitch: self.pitch }
    }

    /// All but position and direction is the same.
    pub open spec fn same_settings(&self, other: &Camera) -> bool {
        &&& self.speed == other.speed
        &&& self.sensitivity == other.sensitivity
        &&& self.zoom_speed == other.zoom_speed
        &&& self.bookmarks@ == other.bookmarks@
    }

    /// The camera as it is made.
    pub open spec fn is_initial(&self) -> bool {
        let zero = Scalar { bits: 0 };
        &&& self.position == Point3 { x: zero, y: zero, z: Scalar { bits: EYE_DISTANCE_BITS } }
        &&& self.yaw == zero
        &&& self.pitch == zero
        &&& self.speed.bits == SPEED_BITS
        &&& self.sensitivity.bits == SENSITIVITY_BITS
        &&& self.zoom_speed.bits == ZOOM_SPEED_BITS
        &&& forall|i: int| 0 <= i < BOOKMARK_SLOTS ==> (#[trigger] self.bookmarks@[i]) is None
    }

    /// A camera in front of the scene that looks straight at it, without
    /// bookmarks.
    pub fn new() -> (camera: Camera)
        ensures
            camera.is_initial(),
            camera.position == (Point3 {
                x: Scalar { bits: 0 },
                y: Scalar { bits: 0 },
                z: Scalar { bits: EYE_DISTANCE_BITS },
            }),
            camera.yaw.bits == 0,
            camera.pitch.bits == 0,
            camera.speed.bits == SPEED_BITS,
            camera.sensitivity.bits == SENSITIVITY_BITS,
            camera.zoom_speed.bits == ZOOM_SPEED_BITS,
            forall|i: int| 0 <= i < 10 ==> (#[trigger] camera.bookmarks@[i]) is None,
    {
        let zero = Scalar::from_bits(0);
        Camera {
            position: Point3 { x: zero, y: zero, z: Scalar::from_bits(EYE_DISTANCE_BITS) },
            yaw: zero,
            pitch: zero,
            speed: Scalar::from_bits(SPEED_BITS),
            sensitivity: Scalar::from_bits(SENSITIVITY_BITS),
            zoom_speed: Scalar::from_bits(ZOOM_SPEED_BITS),
            bookmarks: [None, None, None, None, None, None, None, None, None, None],
        }
    }

    /// `after` is this camera with its view saved in a slot, and otherwise the
    /// same; slots that do not exist are ignored.
    pub open spec fn saves(&self, slot: usize, after: &Camera) -> bool {
        &&& after.view() == self.view()
        &&& after.speed == self.speed
        &&& after.sensitivity == self.sensitivity
        &&& after.zoom_speed == self.zoom_speed
        &&& after.bookmarks@ == if slot < BOOKMARK_SLOTS {
            self.bookmarks@.update(slot as int, Some(self.view()))
        } else {
            self.bookmarks@
        }
    }

    /// `after` is this camera with the view that was saved in a slot, and
    /// `found` says whether there was one; otherwise the camera is the same.
    pub open spec fn restores(&self, slot: usize, after: &Camera, found: bool) -> bool {
        &&& found == (slot < BOOKMARK_SLOTS && self.bookmarks@[slot as int] is Some)
        &&& found ==> Some(after.view()) == self.bookmarks@[slot as int]
        &&& !found ==> after.view() == self.view()
        &&& after.same_settings(self)
    }

    /// Saves the current view in a slot; there are ten, and others are
    /// ignored.
    pub fn save_bookmark(&mut self, slot: usize)
        ensures
            old(self).saves(slot, final(self)),
            final(self).position == old(self).position,
            final(self).yaw == old(self).yaw,
            final(self).pitch == old(self).pitch,
            slot < 10 ==> (final(self).bookmarks@[slot as int] matches Some(v) && v.position
                == old(self).position && v.yaw == old(self).yaw && v.pitch == old(self).pitch),
    {
        if slot < self.bookmarks.len() {
            self.bookmarks[slot] = Some(
                CameraView { position: self.position, yaw: self.yaw, pitch: self.pitch },
            );
        }
    }

    /// Goes back to the view saved in a slot. False if there is none.
    pub fn restore_bookmark(&mut self, slot: usize) -> (r: bool)
        ensures
            old(self).restores(slot, final(self), r),
            r ==> (old(self).bookmarks@[slot as int] matches Some(v) && final(self).position
                == v.position && final(self).yaw == v.yaw && final(self).pitch == v.pitch),
            !r ==> final(self).position == old(self).position && final(self).yaw == old(self).yaw
                && final(self).pitch == old(self).pitch,
            final(self).speed == old(self).speed,
            final(self).sensitivity == old(self).sensitivity,
            final(self).zoom_speed == old(self).zoom_speed,
            final(self).bookmarks@ == old(self).bookmarks@,
    {
        if slot >= self.bookmarks.len() {
            return false;
        }
        match self.bookmarks[slot] {
            Some(view) => {
                self.position = view.position;
                self.yaw = view.yaw;
                self.pitch = view.pitch;
                true
            },
            None => false,
        }
    }
}

/// The pitch that the camera takes on when it is asked for another one.
pub open spec fn limited_pitch(pitch: Scalar) -> Scalar {
    pitch.limited(Scalar { bits: PITCH_LOW_BITS }, Scalar { bits: PITCH_LIMIT_BITS })
}

/// What a key does to the camera when it is pressed, by its platform code.
pub open spec fn action_of_key(key: u32) -> CameraAction {
    if key == 25 {
        CameraAction::Forward
    } else if key == 39 {
        CameraAction::Backward
    } else if key == 38 {
        CameraAction::StrafeLeft
    } else if key == 40 {
        CameraAction::StrafeRight
    } else if key == 24 {
        CameraAction::Down
    } else if key == 26 {
        CameraAction::Up
    } else if key == 113 {
        CameraAction::TurnLeft
    } else if key == 114 {
        CameraAction::TurnRight
    } else if key == 111 {
        CameraAction::LookUp
    } else if key == 116 {
        CameraAction::LookDown
    } else {
        CameraAction::Nothing
    }
}

/// The view after an action whose motion would lead to `target`: walking takes
/// on the position, rising and sinking only the height, turning the yaw, and
/// looking up or down the pitch within its limits.
pub open spec fn view_after(view: CameraView, action: CameraAction, target: CameraView) -> CameraView {
    match action {
        CameraAction::Nothing => view,
        CameraAction::Forward => CameraView { position: target.position, ..view },
        CameraAction::Backward => CameraView { position: target.position, ..view },
        CameraAction::StrafeLeft => CameraView { position: target.position, ..view },
        CameraAction::StrafeRight => CameraView { position: target.position, ..view },
        CameraAction::Down => CameraView {
            position: Point3 { y: target.position.y, ..view.position },
            ..view
        },
        CameraAction::Up => CameraView {
            position: Point3 { y: target.position.y, ..view.position },
            ..view
        },
        CameraAction::TurnLeft => CameraView { yaw: target.yaw, ..view },
        CameraAction::TurnRight => CameraView { yaw: target.yaw, ..view },
        CameraAction::LookUp => CameraView { pitch: limited_pitch(target.pitch), ..view },
        CameraAction::LookDown => CameraView { pitch: limited_pitch(target.pitch), ..view },
    }
}

/// The view after a key was pressed or released; releasing one changes
/// nothing.
pub open spec fn view_after_key(
    view: CameraView,
    key: u32,
    pressed: bool,
    target: CameraView,
) -> CameraView {
    if pressed {
        view_after(view, action_of_key(key), target)
    } else {
        view
    }
}

impl Camera {
    /// Turns to a yaw and a pitch, the pitch within its limits.
    fn turn(&mut self, yaw: Scalar, pitch: Scalar)
        ensures
            final(self).view() == (CameraView {
                position: old(self).position,
                yaw,
                pitch: limited_pitch(pitch),
            }),
            final(self).same_settings(old(self)),
            final(self).position == old(self).position,
            final(self).yaw == yaw,
            final(self).pitch == limited_pitch(pitch),
            final(self).speed == old(self).speed,
            final(self).sensitivity == old(self).sensitivity,
            final(self).zoom_speed == old(self).zoom_speed,
            final(self).bookmarks@ == old(self).bookmarks@,
    {
        let low = Scalar::from_bits(PITCH_LOW_BITS);
        let high = Scalar::from_bits(PITCH_LIMIT_BITS);
        proof {
            lemma_negative_below_positive(low, high);
        }
        self.yaw = yaw;
        self.pitch = pitch.clamp(low, high);
    }

    /// Moves the camera sideways, given the place that the drag leads to.
    pub fn handle_pan(&mut self, moved: Point3)
        ensures
            final(self).view() == (CameraView { position: moved, ..old(self).view() }),
            final(self).same_settings(old(self)),
            final(self).position == moved,
            final(self).yaw == old(self).yaw,
            final(self).pitch == old(self).pitch,
            final(self).speed == old(self).speed,
            final(self).sensitivity == old(self).sensitivity,
            final(self).zoom_speed == old(self).zoom_speed,
            final(self).bookmarks@ == old(self).bookmarks@,
    {
        self.position = moved;
    }

    /// Turns the camera in place, given the yaw and pitch that the drag leads
    /// to.
    pub fn handle_orbit(&mut self, yaw: Scalar, pitch: Scalar)
        ensures
            final(self).view() == (CameraView {
                position: old(self).position,
                yaw,
                pitch: limited_pitch(pitch),
            }),
            final(self).same_settings(old(self)),
            final(self).position == old(self).position,
            final(self).yaw == yaw,
            final(self).pitch == limited_pitch(pitch),
            final(self).speed == old(self).speed,
            final(self).sensitivity == old(self).sensitivity,
            final(self).zoom_speed == old(self).zoom_speed,
            final(self).bookmarks@ == old(self).bookmarks@,
    {
        self.turn(yaw, pitch);
    }

    /// Turns the camera, given the yaw and pitch that the mouse motion leads
    /// to.
    pub fn handle_mouse_move(&mut self, yaw: Scalar, pitch: Scalar)
        ensures
            final(self).view() == (CameraView {
                position: old(self).position,
                yaw,
                pitch: limited_pitch(pitch),
            }),
            final(self).same_settings(old(self)),
            final(self).position == old(self).position,
            final(self).yaw == yaw,
            final(self).pitch == limited_pitch(pitch),
            final(self).speed == old(self).speed,
            final(self).sensitivity == old(self).sensitivity,
            final(self).zoom_speed == old(self).zoom_speed,
            final(self).bookmarks@ == old(self).bookmarks@,
    {
        self.turn(yaw, pitch);
    }

    /// Moves the camera to where zooming leads, but not beyond the zoom limit
    /// in front of the scene or behind it.
    pub fn handle_zoom(&mut self, moved: Point3)
        ensures
            final(self).view() == (CameraView {
                position: Point3 {
                    x: moved.x,
                    y: moved.y,
                    z: moved.z.limited(
                        Scalar { bits: ZOOM_LOW_BITS },
                        Scalar { bits: ZOOM_LIMIT_BITS },
                    ),
                },
                ..old(self).view()
            }),
            final(self).same_settings(old(self)),
            final(self).position.x == moved.x,
            final(self).position.y == moved.y,
            final(self).position.z == moved.z.limited(
                Scalar { bits: ZOOM_LOW_BITS },
                Scalar { bits: ZOOM_LIMIT_BITS },
            ),
            final(self).yaw == old(self).yaw,
            final(self).pitch == old(self).pitch,
            final(self).speed == old(self).speed,
            final(self).sensitivity == old(self).sensitivity,
            final(self).zoom_speed == old(self).zoom_speed,
            final(self).bookmarks@ == old(self).bookmarks@,
    {
        let low = Scalar::from_bits(ZOOM_LOW_BITS);
        let high = Scalar::from_bits(ZOOM_LIMIT_BITS);
        proof {
            lemma_negative_below_positive(low, high);
        }
        self.position = Point3 { x: moved.x, y: moved.y, z: moved.z.clamp(low, high) };
    }

    /// What a key does to the camera, by its platform code. Releasing a key
    /// does nothing.
    pub fn key_action(key: u32, pressed: bool) -> (action: CameraAction)
        ensures
            action == if pressed {
                action_of_key(key)
            } else {
                CameraAction::Nothing
            },
    {
        if !pressed {
            return CameraAction::Nothing;
        }
        match key {
            25 => CameraAction::Forward,
            39 => CameraAction::Backward,
            38 => CameraAction::StrafeLeft,
            40 => CameraAction::StrafeRight,
            24 => CameraAction::Down,
            26 => CameraAction::Up,
            113 => CameraAction::TurnLeft,
            114 => CameraAction::TurnRight,
            111 => CameraAction::LookUp,
            116 => CameraAction::LookDown,
            _ => CameraAction::Nothing,
        }
    }

    /// Moves the camera as a key asks, given the view that the motion of
    /// [`Camera::key_action`] leads to.
    pub fn handle_key(&mut self, key: u32, pressed: bool, target: CameraView)
        ensures
            final(self).view() == view_after_key(old(self).view(), key, pressed, target),
            final(self).same_settings(old(self)),
            final(self).yaw == if pressed && (key == 113 || key == 114) {
                target.yaw
            } else {
                old(self).yaw
            },
            !(pressed && (key == 111 || key == 116)) ==> final(self).pitch == old(self).pitch,
            pressed && (key == 111 || key == 116) ==> final(self).pitch == limited_pitch(
                target.pitch,
            ),
            pressed && (key == 25 || key == 39 || key == 38 || key == 40) ==> final(self).position
                == target.position,
            pressed && (key == 24 || key == 26) ==> final(self).position == (Point3 {
                y: target.position.y,
                ..old(self).position
            }),
            !(pressed && (key == 25 || key == 39 || key == 38 || key == 40 || key == 24 || key
                == 26)) ==> final(self).position == old(self).position,
            final(self).speed == old(self).speed,
            final(self).sensitivity == old(self).sensitivity,
            final(self).zoom_speed == old(self).zoom_speed,
            final(self).bookmarks@ == old(self).bookmarks@,
    {
        match Camera::key_action(key, pressed) {
            CameraAction::Nothing => {},
            CameraAction::Forward => {
                self.position = target.position;
            },
            CameraAction::Backward => {
                self.position = target.position;
            },
            CameraAction::StrafeLeft => {
                self.position = target.position;
            },
            CameraAction::StrafeRight => {
                self.position = target.position;
            },
            CameraAction::Down => {
                self.position.y = target.position.y;
            },
            CameraAction::Up => {
                self.position.y = target.position.y;
            },
            CameraAction::TurnLeft => {
                self.yaw = target.yaw;
            },
            CameraAction::TurnRight => {
                self.yaw = target.yaw;
            },
            CameraAction::LookUp => {
                let yaw = self.yaw;
                self.turn(yaw, target.pitch);
            },
            CameraAction::LookDown => {
                let yaw = self.yaw;
                self.turn(yaw, target.pitch);
            },
        }
    }

    /// Looks straight ahead from `eye`.
    fn look_from(&mut self, eye: Point3)
        ensures
            final(self).view() == (CameraView {
                position: eye,
                yaw: Scalar { bits: 0 },
                pitch: Scalar { bits: 0 },
            }),
            final(self).same_settings(old(self)),
            final(self).position == eye,
            final(self).yaw.bits == 0,
            final(self).pitch.bits == 0,
            final(self).speed == old(self).speed,
            final(self).sensitivity == old(self).sensitivity,
            final(self).zoom_speed == old(self).zoom_speed,
            final(self).bookmarks@ == old(self).bookmarks@,
    {
        self.position = eye;
        self.yaw = Scalar::from_bits(0);
        self.pitch = Scalar::from_bits(0);
    }

    /// Centers the camera on a visual, given the place to look at it from, if
    /// there is such a visual. False if there is none.
    pub fn frame_visual(&mut self, eye: Option<Point3>) -> (r: bool)
        ensures
            r == eye is Some,
            final(self).view() == match eye {
                Some(p) => CameraView {
                    position: p,
                    yaw: Scalar { bits: 0 },
                    pitch: Scalar { bits: 0 },
                },
                None => old(self).view(),
            },
            final(self).same_settings(old(self)),
            eye matches Some(p) ==> final(self).position == p && final(self).yaw.bits == 0
                && final(self).pitch.bits == 0,
            eye is None ==> final(self).position == old(self).position && final(self).yaw == old(
                self,
            ).yaw && final(self).pitch == old(self).pitch,
            final(self).speed == old(self).speed,
            final(self).sensitivity == old(self).sensitivity,
            final(self).zoom_speed == old(self).zoom_speed,
            final(self).bookmarks@ == old(self).bookmarks@,
    {
        match eye {
            Some(p) => {
                self.look_from(p);
                true
            },
            None => false,
        }
    }

    /// Places the camera where all visuals can be seen from. False, and
    /// nothing changes, if there are none.
    pub fn frame_all<T>(&mut self, scene: &Scene<T>, eye: Point3) -> (r: bool)
        ensures
            r == (scene.visuals@.len() > 0),
            final(self).view() == if r {
                CameraView { position: eye, yaw: Scalar { bits: 0 }, pitch: Scalar { bits: 0 } }
            } else {
                old(self).view()
            },
            final(self).same_settings(old(self)),
            r ==> final(self).position == eye && final(self).yaw.bits == 0
                && final(self).pitch.bits == 0,
            !r ==> final(self).position == old(self).position && final(self).yaw == old(self).yaw
                && final(self).pitch == old(self).pitch,
            final(self).speed == old(self).speed,
            final(self).sensitivity == old(self).sensitivity,
            final(self).zoom_speed == old(self).zoom_speed,
            final(self).bookmarks@ == old(self).bookmarks@,
    {
        if scene.visuals.is_empty() {
            return false;
        }
        self.look_from(eye);
        true
    }
}

/// `least` is the lesser of `start` and the least number among `values`.
pub open spec fn is_least(values: Seq<Scalar>, start: Scalar, least: Scalar) -> bool {
    &&& least == start || values.contains(least)
    &&& !least.nan()
    &&& least.units() <= start.units()
    &&& forall|i: int|
        0 <= i < values.len() && !(#[trigger] values[i]).nan() ==> least.units()
            <= values[i].units()
}

/// `greatest` is the greater of `start` and the greatest number among
/// `values`.
pub open spec fn is_greatest(values: Seq<Scalar>, start: Scalar, greatest: Scalar) -> bool {
    &&& greatest == start || values.contains(greatest)
    &&& !greatest.nan()
    &&& greatest.units() >= start.units()
    &&& forall|i: int|
        0 <= i < values.len() && !(#[trigger] values[i]).nan() ==> greatest.units()
            >= values[i].units()
}

/// The smallest box around some points.
#[derive(Debug, Clone, Copy, PartialEq)]
pub struct Bounds {
    pub min: Vector3,
    pub max: Vector3,
}

/// The horizontal coordinates of the points.
pub open spec fn xs(points: Seq<Vector3>) -> Seq<Scalar> {
    points.map_values(|p: Vector3| p.x)
}

/// The vertical coordinates of the points.
pub open spec fn ys(points: Seq<Vector3>) -> Seq<Scalar> {
    points.map_values(|p: Vector3| p.y)
}

/// The depths of the points.
pub open spec fn zs(points: Seq<Vector3>) -> Seq<Scalar> {
    points.map_values(|p: Vector3| p.z)
}

impl Bounds {
    /// The box reaches along each axis from the least to the greatest
    /// coordinate.
    pub open spec fn encloses(self, points: Seq<Vector3>) -> bool {
        let top = Scalar { bits: LARGEST_BITS };
        let bottom = Scalar { bits: SMALLEST_BITS };
        &&& is_least(xs(points), top, self.min.x)
        &&& is_least(ys(points), top, self.min.y)
        &&& is_least(zs(points), top, self.min.z)
        &&& is_greatest(xs(points), bottom, self.max.x)
        &&& is_greatest(ys(points), bottom, self.max.y)
        &&& is_greatest(zs(points), bottom, self.max.z)
    }

    /// The smallest box around the points. Coordinates that are not numbers do
    /// not count; without any point the box is inside out.
    pub fn around(points: &Vec<Vector3>) -> (b: Bounds)
        ensures
            b.encloses(points@),
    {
        let top = Scalar::from_bits(LARGEST_BITS);
        let bottom = Scalar::from_bits(SMALLEST_BITS);
        let mut min: Vector3 = Vector3 { x: top, y: top, z: top };
        let mut max: Vector3 = Vector3 { x: bottom, y: bottom, z: bottom };
        let mut i: usize = 0;
        while i < points.len()
            invariant
                i <= points@.len(),
                top.bits == LARGEST_BITS,
                bottom.bits == SMALLEST_BITS,
                (Bounds { min, max }).encloses(points@.take(i as int)),
            decreases points@.len() - i,
        {
            let p = points[i];
            let ghost seen = points@.take(i as int);
            proof {
                assert(points@.take(i + 1) =~= seen.push(p));
                assert(xs(seen.push(p)) =~= xs(seen).push(p.x));
                assert(ys(seen.push(p)) =~= ys(seen).push(p.y));
                assert(zs(seen.push(p)) =~= zs(seen).push(p.z));
            }
            let less = Vector3 { x: min.x.min(p.x), y: min.y.min(p.y), z: min.z.min(p.z) };
            let more = Vector3 { x: max.x.max(p.x), y: max.y.max(p.y), z: max.z.max(p.z) };
            proof {
                lemma_least_step(xs(seen), top, min.x, p.x, less.x);
                lemma_least_step(ys(seen), top, min.y, p.y, less.y);
                lemma_least_step(zs(seen), top, min.z, p.z, less.z);
                lemma_greatest_step(xs(seen), bottom, max.x, p.x, more.x);
                lemma_greatest_step(ys(seen), bottom, max.y, p.y, more.y);
                lemma_greatest_step(zs(seen), bottom, max.z, p.z, more.z);
            }
            min = less;
            max = more;
            i += 1;
        }
        proof {
            assert(points@.take(points@.len() as int) =~= points@);
        }
        Bounds { min, max }
    }
}

proof fn lemma_least_step(values: Seq<Scalar>, start: Scalar, least: Scalar, v: Scalar, r: Scalar)
    requires
        is_least(values, start, least),
        r == least || r == v,
        v.nan() ==> r == least,
        !v.nan() ==> r.units() <= least.units() && r.units() <= v.units(),
    ensures
        is_least(values.push(v), start, r),
{
    let longer = values.push(v);
    assert(longer[values.len() as int] == v);
    if least != start {
        let i = choose|i: int| 0 <= i < values.len() && values[i] == least;
        assert(longer[i] == least);
    }
    assert forall|i: int| 0 <= i < longer.len() && !(#[trigger] longer[i]).nan() implies r.units()
        <= longer[i].units() by {
        if i < values.len() {
            assert(longer[i] == values[i]);
        }
    }
}

proof fn lemma_greatest_step(
    values: Seq<Scalar>,
    start: Scalar,
    greatest: Scalar,
    v: Scalar,
    r: Scalar,
)
    requires
        is_greatest(values, start, greatest),
        r == greatest || r == v,
        v.nan() ==> r == greatest,
        !v.nan() ==> r.units() >= greatest.units() && r.units() >= v.units(),
    ensures
        is_greatest(values.push(v), start, r),
{
    let longer = values.push(v);
    assert(longer[values.len() as int] == v);
    if greatest != start {
        let i = choose|i: int| 0 <= i < values.len() && values[i] == greatest;
        assert(longer[i] == greatest);
    }
    assert forall|i: int| 0 <= i < longer.len() && !(#[trigger] longer[i]).nan() implies r.units()
        >= longer[i].units() by {
        if i < values.len() {
            assert(longer[i] == values[i]);
        }
    }
}

/// Where the pointer was last seen, for devices that report places instead of
/// motions.
#[derive(Debug, Clone, Copy)]
pub struct AbsolutePointer {
    pub last: Option<(Scalar64, Scalar64)>,
}

impl AbsolutePointer {
    /// A pointer that was not seen yet.
    pub fn new() -> (p: AbsolutePointer)
        ensures
            p.last is None,
    {
        AbsolutePointer { last: None }
    }

    /// Notes a place and gives the one before it, from which the motion is
    /// measured. The first place has none before it and makes no motion.
    pub fn moved_to(&mut self, x: Scalar64, y: Scalar64) -> (before: Option<(Scalar64, Scalar64)>)
        ensures
            before == old(self).last,
            final(self).last == Some((x, y)),
    {
        let before = self.last;
        self.last = Some((x, y));
        before
    }
}

/// Restoring a bookmark brings back the view that was saved in it, wherever
/// the camera has moved meanwhile, as long as its bookmarks were left alone.
pub proof fn law_restore_gives_back_what_was_saved(
    before: Camera,
    slot: usize,
    saved: Camera,
    moved: Camera,
    after: Camera,
    found: bool,
)
    requires
        slot < BOOKMARK_SLOTS,
        before.saves(slot, &saved),
        moved.bookmarks@ == saved.bookmarks@,
        moved.restores(slot, &after, found),
    ensures
        found,
        after.view() == before.view(),
{
    assert(before.bookmarks@.len() == BOOKMARK_SLOTS);
}

/// Saving in one slot leaves what can be restored from another.
pub proof fn law_bookmarks_are_independent(before: Camera, slot: usize, saved: Camera, other: usize)
    requires
        before.saves(slot, &saved),
        other < BOOKMARK_SLOTS,
        other != slot,
    ensures
        saved.bookmarks@[other as int] == before.bookmarks@[other as int],
{
}

/// No action takes the pitch beyond its limits: a camera whose pitch is a
/// number within them keeps it so, whatever key is pressed or released.
pub proof fn law_pitch_stays_in_range(
    view: CameraView,
    key: u32,
    pressed: bool,
    target: CameraView,
)
    requires
        !target.pitch.nan(),
        !view.pitch.nan(),
        (Scalar { bits: PITCH_LOW_BITS }).units() <= view.pitch.units() <= (Scalar {
            bits: PITCH_LIMIT_BITS,
        }).units(),
    ensures
        ({
            let pitch = view_after_key(view, key, pressed, target).pitch;
            &&& !pitch.nan()
            &&& (Scalar { bits: PITCH_LOW_BITS }).units() <= pitch.units() <= (Scalar {
                bits: PITCH_LIMIT_BITS,
            }).units()
        }),
{
    let low = Scalar { bits: PITCH_LOW_BITS };
    let high = Scalar { bits: PITCH_LIMIT_BITS };
    lemma_negative_below_positive(low, high);
    crate::scalar::law_clamp_stays_in_range(target.pitch, low, high);
}

/// However far a drag or a motion of the mouse would tilt the camera, its
/// pitch ends within its limits.
pub proof fn law_turning_stays_in_range(pitch: Scalar)
    requires
        !pitch.nan(),
    ensures
        !limited_pitch(pitch).nan(),
        (Scalar { bits: PITCH_LOW_BITS }).units() <= limited_pitch(pitch).units() <= (Scalar {
            bits: PITCH_LIMIT_BITS,
        }).units(),
{
    let low = Scalar { bits: PITCH_LOW_BITS };
    let high = Scalar { bits: PITCH_LIMIT_BITS };
    lemma_negative_below_positive(low, high);
    crate::scalar::law_clamp_stays_in_range(pitch, low, high);
}

/// A key that does nothing to the camera, or one that is released, leaves the
/// view as it is.
pub proof fn law_other_keys_leave_the_view(
    view: CameraView,
    key: u32,
    pressed: bool,
    target: CameraView,
)
    requires
        !pressed || action_of_key(key) == CameraAction::Nothing,
    ensures
        view_after_key(view, key, pressed, target) == view,
{
}

/// The numbers that the bit patterns of the camera's settings and limits
/// stand for, in units of two to the power of -149: the distance to begin
/// with is 800, the walking speed 10, the zooming speed 50; the pitch reaches
/// from -3/2 to 3/2, and zooming from -10000 to 10000.
pub proof fn law_camera_numbers()
    ensures
        (Scalar { bits: EYE_DISTANCE_BITS }).units() == 800 * pow2(149),
        (Scalar { bits: SPEED_BITS }).units() == 10 * pow2(149),
        (Scalar { bits: ZOOM_SPEED_BITS }).units() == 50 * pow2(149),
        (Scalar { bits: PITCH_LIMIT_BITS }).units() == 3 * pow2(148),
        (Scalar { bits: PITCH_LOW_BITS }).units() == -(3 * pow2(148)),
        (Scalar { bits: ZOOM_LIMIT_BITS }).units() == 10000 * pow2(149),
        (Scalar { bits: ZOOM_LOW_BITS }).units() == -(10000 * pow2(149)),
{
    lemma2_to64();
    lemma_units_of_pattern(Scalar { bits: EYE_DISTANCE_BITS }, 800, 14);
    lemma_units_of_pattern(Scalar { bits: SPEED_BITS }, 10, 20);
    lemma_units_of_pattern(Scalar { bits: ZOOM_SPEED_BITS }, 50, 18);
    lemma_units_of_pattern(Scalar { bits: PITCH_LIMIT_BITS }, 3, 22);
    lemma_units_of_pattern(Scalar { bits: ZOOM_LIMIT_BITS }, 10000, 10);
    assert((Scalar { bits: PITCH_LOW_BITS }).pattern() == PITCH_LIMIT_BITS);
    assert((Scalar { bits: ZOOM_LOW_BITS }).pattern() == ZOOM_LIMIT_BITS);
}

/// The view of a camera is its position, its yaw and its pitch, and its
/// settings are all the rest.
pub proof fn law_view_and_settings_are_the_camera(a: Camera, b: Camera)
    ensures
        a.view().position == a.position,
        a.view().yaw == a.yaw,
        a.view().pitch == a.pitch,
        a.same_settings(&b) <==> a.speed == b.speed && a.sensitivity == b.sensitivity
            && a.zoom_speed == b.zoom_speed && a.bookmarks@ == b.bookmarks@,
{
}

/// Views are the same exactly when each of their numbers is.
pub proof fn law_views_compare_by_numbers(a: CameraView, b: CameraView)
    ensures
        a.same(b) <==> a.position.x.same(b.position.x) && a.position.y.same(b.position.y)
            && a.position.z.same(b.position.z) && a.yaw.same(b.yaw) && a.pitch.same(b.pitch),
{
}

/// Walking and strafing keys move the camera to where they lead and leave it
/// looking where it looked.
pub proof fn law_walking_keeps_the_direction(view: CameraView, key: u32, target: CameraView)
    requires
        key == 25 || key == 39 || key == 38 || key == 40,
    ensures
        view_after_key(view, key, true, target).position == target.position,
        view_after_key(view, key, true, target).yaw == view.yaw,
        view_after_key(view, key, true, target).pitch == view.pitch,
{
}

/// Keys that raise or lower the camera change its height and nothing else.
pub proof fn law_height_keys_change_only_the_height(view: CameraView, key: u32, target: CameraView)
    requires
        key == 24 || key == 26,
    ensures
        view_after_key(view, key, true, target).position.y == target.position.y,
        view_after_key(view, key, true, target).position.x == view.position.x,
        view_after_key(view, key, true, target).position.z == view.position.z,
        view_after_key(view, key, true, target).yaw == view.yaw,
        view_after_key(view, key, true, target).pitch == view.pitch,
{
}

/// Keys that turn the camera leave it where it is; those to the side keep its
/// pitch, and those up and down its yaw.
pub proof fn law_turning_keys_keep_the_place(view: CameraView, key: u32, target: CameraView)
    requires
        key == 113 || key == 114 || key == 111 || key == 116,
    ensures
        view_after_key(view, key, true, target).position == view.position,
        key == 113 || key == 114 ==> view_after_key(view, key, true, target).yaw == target.yaw
            && view_after_key(view, key, true, target).pitch == view.pitch,
        key == 111 || key == 116 ==> view_after_key(view, key, true, target).yaw == view.yaw
            && view_after_key(view, key, true, target).pitch == limited_pitch(target.pitch),
{
}

/// All other keys, and every key that is released, leave the view alone.
pub proof fn law_only_ten_keys_move(view: CameraView, key: u32, pressed: bool, target: CameraView)
    requires
        !pressed || (key != 25 && key != 39 && key != 38 && key != 40 && key != 24 && key != 26
            && key != 113 && key != 114 && key != 111 && key != 116),
    ensures
        view_after_key(view, key, pressed, target).position == view.position,
        view_after_key(view, key, pressed, target).yaw == view.yaw,
        view_after_key(view, key, pressed, target).pitch == view.pitch,
{
}

/// Each of the ten keys has an action of its own, and no other key has one.
pub proof fn law_keys_and_actions_match(key: u32)
    ensures
        action_of_key(key) == CameraAction::Forward <==> key == 25,
        action_of_key(key) == CameraAction::Backward <==> key == 39,
        action_of_key(key) == CameraAction::StrafeLeft <==> key == 38,
        action_of_key(key) == CameraAction::StrafeRight <==> key == 40,
        action_of_key(key) == CameraAction::Down <==> key == 24,
        action_of_key(key) == CameraAction::Up <==> key == 26,
        action_of_key(key) == CameraAction::TurnLeft <==> key == 113,
        action_of_key(key) == CameraAction::TurnRight <==> key == 114,
        action_of_key(key) == CameraAction::LookUp <==> key == 111,
        action_of_key(key) == CameraAction::LookDown <==> key == 116,
{
}

/// A pitch from -3/2 to 3/2 is taken as it is; a steeper one becomes the
/// nearer of the two.
pub proof fn law_pitch_is_taken_within_its_limits(pitch: Scalar)
    requires
        !pitch.nan(),
    ensures
        -(3 * pow2(148)) <= pitch.units() <= 3 * pow2(148) ==> limited_pitch(pitch) == pitch,
        pitch.units() > 3 * pow2(148) ==> limited_pitch(pitch).units() == 3 * pow2(148),
        pitch.units() < -(3 * pow2(148)) ==> limited_pitch(pitch).units() == -(3 * pow2(148)),
{
    law_camera_numbers();
}

/// Zooming takes the camera to where it leads, as long as that is no further
/// than 10000 from the scene, and else to that distance on the same side.
pub proof fn law_zoom_stops_at_its_limits(z: Scalar)
    requires
        !z.nan(),
    ensures
        ({
            let r = z.limited(Scalar { bits: ZOOM_LOW_BITS }, Scalar { bits: ZOOM_LIMIT_BITS });
            &&& -(10000 * pow2(149)) <= z.units() <= 10000 * pow2(149) ==> r == z
            &&& z.units() > 10000 * pow2(149) ==> r.units() == 10000 * pow2(149)
            &&& z.units() < -(10000 * pow2(149)) ==> r.units() == -(10000 * pow2(149))
        }),
{
    law_camera_numbers();
}

/// Saving notes the position, yaw and pitch of the camera in the slot and
/// changes no other slot and nothing else; restoring takes them from it.
pub proof fn law_bookmarks_hold_the_view(
    before: Camera,
    slot: usize,
    saved: Camera,
    moved: Camera,
    after: Camera,
    found: bool,
    other: int,
)
    requires
        before.saves(slot, &saved),
        moved.restores(slot, &after, found),
        0 <= other < 10,
    ensures
        slot < 10 ==> (saved.bookmarks@[slot as int] matches Some(v) && v.position
            == before.position && v.yaw == before.yaw && v.pitch == before.pitch),
        other != slot ==> saved.bookmarks@[other] == before.bookmarks@[other],
        saved.position == before.position && saved.yaw == before.yaw && saved.pitch
            == before.pitch,
        saved.speed == before.speed && saved.sensitivity == before.sensitivity
            && saved.zoom_speed == before.zoom_speed,
        found <==> slot < 10 && moved.bookmarks@[slot as int] is Some,
        found ==> (moved.bookmarks@[slot as int] matches Some(v) && after.position == v.position
            && after.yaw == v.yaw && after.pitch == v.pitch),
        !found ==> after.position == moved.position && after.yaw == moved.yaw && after.pitch
            == moved.pitch,
        after.bookmarks@ == moved.bookmarks@,
{
    assert(before.bookmarks@.len() == 10);
}

/// The box reaches around every coordinate that is a number and no further than
/// it must: each of its sides goes through one of the points.
pub proof fn law_bounds_fit_the_points(b: Bounds, points: Seq<Vector3>, i: int)
    requires
        b.encloses(points),
        0 <= i < points.len(),
    ensures
        !points[i].x.nan() ==> b.min.x.units() <= points[i].x.units() <= b.max.x.units(),
        !points[i].y.nan() ==> b.min.y.units() <= points[i].y.units() <= b.max.y.units(),
        !points[i].z.nan() ==> b.min.z.units() <= points[i].z.units() <= b.max.z.units(),
        b.min.x.bits == 0x7f7f_ffff || exists|k: int|
            0 <= k < points.len() && (#[trigger] points[k]).x == b.min.x,
        b.min.y.bits == 0x7f7f_ffff || exists|k: int|
            0 <= k < points.len() && (#[trigger] points[k]).y == b.min.y,
        b.min.z.bits == 0x7f7f_ffff || exists|k: int|
            0 <= k < points.len() && (#[trigger] points[k]).z == b.min.z,
        b.max.x.bits == 0xff7f_ffff || exists|k: int|
            0 <= k < points.len() && (#[trigger] points[k]).x == b.max.x,
        b.max.y.bits == 0xff7f_ffff || exists|k: int|
            0 <= k < points.len() && (#[trigger] points[k]).y == b.max.y,
        b.max.z.bits == 0xff7f_ffff || exists|k: int|
            0 <= k < points.len() && (#[trigger] points[k]).z == b.max.z,
{
    assert(xs(points)[i] == points[i].x);
    assert(ys(points)[i] == points[i].y);
    assert(zs(points)[i] == points[i].z);
    lemma_side_through_a_point(xs(points), b.min.x, b.max.x);
    lemma_side_through_a_point(ys(points), b.min.y, b.max.y);
    lemma_side_through_a_point(zs(points), b.min.z, b.max.z);
    if xs(points).contains(b.min.x) {
        let k = xs(points).index_of(b.min.x);
        assert(points[k].x == b.min.x);
    }
    if ys(points).contains(b.min.y) {
        let k = ys(points).index_of(b.min.y);
        assert(points[k].y == b.min.y);
    }
    if zs(points).contains(b.min.z) {
        let k = zs(points).index_of(b.min.z);
        assert(points[k].z == b.min.z);
    }
    if xs(points).contains(b.max.x) {
        let k = xs(points).index_of(b.max.x);
        assert(points[k].x == b.max.x);
    }
    if ys(points).contains(b.max.y) {
        let k = ys(points).index_of(b.max.y);
        assert(points[k].y == b.max.y);
    }
    if zs(points).contains(b.max.z) {
        let k = zs(points).index_of(b.max.z);
        assert(points[k].z == b.max.z);
    }
}

proof fn lemma_side_through_a_point(values: Seq<Scalar>, least: Scalar, greatest: Scalar)
    requires
        is_least(values, Scalar { bits: LARGEST_BITS }, least),
        is_greatest(values, Scalar { bits: SMALLEST_BITS }, greatest),
    ensures
        least.bits == 0x7f7f_ffff || values.contains(least),
        greatest.bits == 0xff7f_ffff || values.contains(greatest),
{
}

/// `==` on views compares the place and both angles.
pub proof fn law_equal_views(a: CameraView, b: CameraView)
    ensures
        PartialEqSpec::eq_spec(&a, &b) <==> a.position.x.same(b.position.x) && a.position.y.same(
            b.position.y,
        ) && a.position.z.same(b.position.z) && a.yaw.same(b.yaw) && a.pitch.same(b.pitch),
{
}

} // verus!
