//! Where input events go.

use crate::picking::RayProbe;
use crate::scalar::{Scalar, Scalar64};
use crate::scene::{Scene, VisualId, ONE_BITS};
use vstd::arithmetic::power2::pow2;
use vstd::prelude::*;
use vstd::std_specs::cmp::{PartialEqSpec, PartialEqSpecImpl};

verus! {

/// Difference between platform key codes and kernel key codes.
pub const KEYCODE_OFFSET: u32 = 8;

/// The destination of a pointer event.
#[derive(Debug, Clone, Copy, PartialEq, Eq, Structural)]
pub enum InteractionTarget {
    /// The compositor itself: moving visuals or the camera.
    Scene,
    /// The content of a visual.
    Content(VisualId),
}

/// What happened to the pointer.
#[derive(Debug, Clone, Copy)]
pub enum PointerEventKind {
    Down,
    Up,
    Motion,
    Scroll(Scalar64, Scalar64),
}

impl PointerEventKind {
    /// The same thing happened; amounts of scrolling count as numbers.
    pub open spec fn same(self, other: PointerEventKind) -> bool {
        match (self, other) {
            (PointerEventKind::Scroll(x, y), PointerEventKind::Scroll(u, v)) => x.same(u)
                && y.same(v),
            _ => self == other,
        }
    }
}

impl PartialEq for PointerEventKind {
    fn eq(&self, other: &PointerEventKind) -> (r: bool) {
        match (*self, *other) {
            (PointerEventKind::Down, PointerEventKind::Down) => true,
            (PointerEventKind::Up, PointerEventKind::Up) => true,
            (PointerEventKind::Motion, PointerEventKind::Motion) => true,
            (PointerEventKind::Scroll(x, y), PointerEventKind::Scroll(u, v)) => x == u && y == v,
            _ => false,
        }
    }
}

impl PartialEqSpecImpl for PointerEventKind {
    open spec fn obeys_eq_spec() -> bool {
        true
    }

    open spec fn eq_spec(&self, other: &PointerEventKind) -> bool {
        self.same(*other)
    }
}

/// A key of the USB keyboard page, pressed or released.
#[derive(Debug, Clone, Copy, PartialEq, Eq, Structural)]
pub struct KeyboardEvent {
    pub key: u32,
    pub pressed: bool,
}

/// Where a pointer event goes: to the compositor while a modifier is held or
/// nothing is selected, else to the content of the selected visual.
pub fn classify_pointer_target<T>(scene: &Scene<T>, shift: bool, ctrl: bool, alt: bool) -> (r:
    InteractionTarget)
    ensures
        r == match scene.selected_id {
            Some(id) if !shift && !ctrl && !alt => InteractionTarget::Content(id),
            _ => InteractionTarget::Scene,
        },
{
    if shift || ctrl || alt {
        return InteractionTarget::Scene;
    }
    match scene.selected_id {
        Some(id) => InteractionTarget::Content(id),
        None => InteractionTarget::Scene,
    }
}

/// The place on a visual that a ray meets, counted from its top left corner in
/// widths and heights, if the ray meets it at all. `u` and `v` are the place
/// as computed; rounding may have put it a little outside.
pub fn screen_to_visual_uv(probe: &RayProbe, u: Scalar, v: Scalar) -> (r: Option<(Scalar, Scalar)>)
    ensures
        r == if probe.hit() {
            let zero = Scalar { bits: 0 };
            let one = Scalar { bits: ONE_BITS };
            Some((u.limited(zero, one), v.limited(zero, one)))
        } else {
            None
        },
{
    if !probe.is_hit() {
        return None;
    }
    let zero = Scalar::from_bits(0);
    let one = Scalar::from_bits(ONE_BITS);
    proof {
        crate::scalar::lemma_zero_below_positive(one);
    }
    Some((u.clamp(zero, one), v.clamp(zero, one)))
}

/// A pixel coordinate, moved to the last pixel if it lies beyond.
pub open spec fn kept_inside(p: u32, size: u32) -> u32 {
    if size == 0 {
        0
    } else if p < size {
        p
    } else {
        (size - 1) as u32
    }
}

/// A place in pixels, kept inside a visual of the given size. `px` and `py`
/// are the place on the visual times its size, rounded towards zero.
pub fn uv_to_pixels(px: u32, py: u32, width: u32, height: u32) -> (r: (u32, u32))
    ensures
        r == (kept_inside(px, width), kept_inside(py, height)),
{
    let last_x: u32 = width.saturating_sub(1);
    let last_y: u32 = height.saturating_sub(1);
    let x: u32 = if px < last_x {
        px
    } else {
        last_x
    };
    let y: u32 = if py < last_y {
        py
    } else {
        last_y
    };
    (x, y)
}

/// The kernel key code behind a platform key code.
pub open spec fn kernel_code(key: u32) -> u32 {
    if key > KEYCODE_OFFSET {
        (key - KEYCODE_OFFSET) as u32
    } else {
        key
    }
}

/// The kernel key code behind a platform key code; codes up to the offset are
/// taken as kernel codes already.
pub fn evdev_code(key: u32) -> (r: u32)
    ensures
        r == kernel_code(key),
{
    if key > KEYCODE_OFFSET {
        key - KEYCODE_OFFSET
    } else {
        key
    }
}

/// The key of the USB keyboard page that a table lists for a kernel key code.
/// Zero, and the end of the table, stand for no key.
pub open spec fn usage(keymap: Seq<u32>, code: u32) -> u32 {
    if code < keymap.len() {
        keymap[code as int]
    } else {
        0
    }
}

/// The event for a platform key code, by a table of the keys of the USB
/// keyboard page for each kernel key code; none if the table has no key.
pub fn keyboard_event(key: u32, pressed: bool, keymap: &Vec<u32>) -> (r: Option<KeyboardEvent>)
    ensures
        r == match usage(keymap@, kernel_code(key)) {
            0 => None,
            hid => Some(KeyboardEvent { key: hid, pressed }),
        },
        r matches Some(event) ==> event.pressed == pressed && event.key != 0,
        key > 8 && key - 8 < keymap.len() ==> (r matches Some(event) ==> event.key == keymap@[key
            - 8]) && (r is None <==> keymap@[key - 8] == 0),
        key > 8 && key - 8 >= keymap.len() ==> r is None,
{
    let code: usize = evdev_code(key) as usize;
    if code >= keymap.len() {
        return None;
    }
    let hid: u32 = keymap[code];
    if hid == 0 {
        return None;
    }
    Some(KeyboardEvent { key: hid, pressed })
}

/// Both coordinates of a place on a visual lie between zero and one, unless
/// the place was not a number to begin with.
pub proof fn law_uv_is_normalized(u: Scalar)
    requires
        !u.nan(),
    ensures
        ({
            let r = u.limited(Scalar { bits: 0 }, Scalar { bits: ONE_BITS });
            &&& !r.nan()
            &&& 0 <= r.units() <= (Scalar { bits: ONE_BITS }).units()
        }),
{
    crate::scalar::lemma_zero_below_positive(Scalar { bits: ONE_BITS });
    crate::scalar::law_clamp_stays_in_range(u, Scalar { bits: 0 }, Scalar { bits: ONE_BITS });
}

/// A place on a visual is given exactly where the ray meets it. It is the place
/// that was computed if that lies between zero and one, and else the nearer of
/// the two.
pub proof fn law_uv_is_what_was_computed(u: Scalar)
    requires
        !u.nan(),
    ensures
        ({
            let r = u.limited(Scalar { bits: 0 }, Scalar { bits: 0x3f80_0000 });
            &&& 0 <= u.units() <= pow2(149) ==> r == u
            &&& u.units() < 0 ==> r.bits == 0
            &&& u.units() > pow2(149) ==> r.bits == 0x3f80_0000
        }),
{
    crate::scene::law_scene_numbers();
    crate::scalar::lemma_zero_below_positive(Scalar { bits: 0x3f80_0000 });
}

/// A pixel inside a visual stays where it is, and one beyond becomes the last;
/// only a visual without pixels has none to give.
pub proof fn law_pixels_stay_inside(p: u32, size: u32)
    ensures
        p < size ==> kept_inside(p, size) == p,
        p >= size && size > 0 ==> kept_inside(p, size) == size - 1,
        size > 0 ==> kept_inside(p, size) < size,
        size == 0 ==> kept_inside(p, size) == 0,
{
}

/// Kernel key codes lie eight below platform key codes; codes up to eight are
/// kernel codes already.
pub proof fn law_key_codes_lie_eight_apart(key: u32)
    ensures
        key > 8 ==> kernel_code(key) + 8 == key,
        key <= 8 ==> kernel_code(key) == key,
{
}

/// The table is read at the code itself, and gives no key beyond its end.
pub proof fn law_table_is_read_by_code(keymap: Seq<u32>, code: u32)
    ensures
        code < keymap.len() ==> usage(keymap, code) == keymap[code as int],
        code >= keymap.len() ==> usage(keymap, code) == 0,
{
}

/// Pointer events are the same exactly when they are of one kind and, when they
/// scroll, by the same numbers.
pub proof fn law_pointer_events_compare_by_kind(
    a: PointerEventKind,
    b: PointerEventKind,
    by: (Scalar64, Scalar64),
    with: (Scalar64, Scalar64),
)
    ensures
        a is Down ==> (a.same(b) <==> b is Down),
        a is Up ==> (a.same(b) <==> b is Up),
        a is Motion ==> (a.same(b) <==> b is Motion),
        a is Scroll && !(b is Scroll) ==> !a.same(b),
        a == PointerEventKind::Scroll(by.0, by.1) && b == PointerEventKind::Scroll(with.0, with.1)
            ==> (a.same(b) <==> by.0.same(with.0) && by.1.same(with.1)),
{
}

/// `==` on pointer events compares what happened, and for scrolling by how much.
pub proof fn law_equal_pointer_events(a: PointerEventKind, b: PointerEventKind)
    ensures
        PartialEqSpec::eq_spec(&a, &b) <==> {
            ||| a is Down && b is Down
            ||| a is Up && b is Up
            ||| a is Motion && b is Motion
            ||| a is Scroll && b is Scroll && a->Scroll_0.same(b->Scroll_0)
                && a->Scroll_1.same(b->Scroll_1)
        },
{
}

} // verus!
