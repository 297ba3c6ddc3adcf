//! The state of the compositor: its toplevel windows, its scene and its frame
//! producers, and what happens to them on each event.
//!
//! `T` is a texture of the renderer, `P` a frame producer and `S` a receiver
//! of input events; the state only holds on to them.

use crate::geometry::{Quaternion, Rect, Vector3};
use crate::input::Camera;
use crate::layout::LayoutMode;
use crate::perf::PerfStats;
use crate::producer::FrameResult;
use crate::scalar::{lemma_units_of_pattern, Scalar, Scalar64};
use crate::scene::{
    changed, first_with_id, has_visual, lemma_filter_keeps, other_than, successor, Scene,
    Transform3D, Visual, VisualContent, VisualId, VisualIds,
};
use std::collections::HashMap;
use vstd::arithmetic::power2::{lemma2_to64, pow2};
use vstd::prelude::*;

verus! {

broadcast use vstd::std_specs::hash::group_hash_axioms;

/// Bit patterns of 1280 and 720, the size of the window to begin with.
pub const WINDOW_WIDTH_BITS: u32 = 0x44a0_0000;

pub const WINDOW_HEIGHT_BITS: u32 = 0x4434_0000;

/// Bit pattern of 200, how high the visual of a producer starts.
pub const PRODUCER_HEIGHT_BITS: u32 = 0x4348_0000;

/// Distance between benchmark visuals.
pub const BENCHMARK_SPACING: i32 = 160;

/// The identity of a client's surface.
#[derive(Debug, Clone, Copy, PartialEq, Eq, Hash, Structural)]
pub struct SurfaceId(pub u64);

/// How far a toplevel has come: announced, told its configuration, or shown.
#[derive(Debug, Clone, Copy, PartialEq, Eq, Structural)]
pub enum SurfaceLifecycle {
    Created,
    Configured,
    Mapped,
}

/// What a client says of its toplevel.
#[derive(Debug, Clone)]
pub struct SurfaceMetadata {
    pub title: Option<String>,
    pub app_id: Option<String>,
}

/// The text that was given, or none.
pub open spec fn text_of(text: Option<String>) -> Seq<char> {
    match text {
        Some(s) => s@,
        None => Seq::empty(),
    }
}

fn text_or_empty(text: Option<String>) -> (r: String)
    ensures
        r@ == text_of(text),
{
    match text {
        Some(s) => s,
        None => String::new(),
    }
}

/// A toplevel window.
#[derive(Debug, Clone)]
pub struct ToplevelInfo {
    pub surface: SurfaceId,
    pub app_id: String,
    pub title: String,
    pub lifecycle: SurfaceLifecycle,
    pub visual_id: Option<VisualId>,
    pub size: Option<(i32, i32)>,
}

impl ToplevelInfo {
    /// A toplevel has a visual and a size exactly when it is shown.
    pub open spec fn well_formed(&self) -> bool {
        &&& self.visual_id is Some <==> self.lifecycle == SurfaceLifecycle::Mapped
        &&& self.size is Some <==> self.lifecycle == SurfaceLifecycle::Mapped
    }

    /// All but title and application are the same.
    pub open spec fn same_but_names(&self, other: &ToplevelInfo) -> bool {
        &&& self.surface == other.surface
        &&& self.lifecycle == other.lifecycle
        &&& self.visual_id == other.visual_id
        &&& self.size == other.size
    }

    /// A toplevel that has just been announced. Without metadata it has no
    /// names.
    pub fn new(surface: SurfaceId, metadata: Option<SurfaceMetadata>) -> (info: ToplevelInfo)
        ensures
            info.surface == surface,
            info.lifecycle == SurfaceLifecycle::Created,
            info.visual_id is None,
            info.size is None,
            info.title@ == match metadata {
                Some(m) => text_of(m.title),
                None => Seq::empty(),
            },
            info.app_id@ == match metadata {
                Some(m) => text_of(m.app_id),
                None => Seq::empty(),
            },
            info.well_formed(),
    {
        let (title, app_id) = match metadata {
            Some(m) => (text_or_empty(m.title), text_or_empty(m.app_id)),
            None => (String::new(), String::new()),
        };
        ToplevelInfo {
            surface,
            app_id,
            title,
            lifecycle: SurfaceLifecycle::Created,
            visual_id: None,
            size: None,
        }
    }

    /// Takes over what the client says now; without metadata nothing changes.
    pub fn refresh_metadata(&mut self, metadata: Option<SurfaceMetadata>)
        ensures
            metadata is None ==> *final(self) == *old(self),
            metadata matches Some(m) ==> final(self).title@ == text_of(m.title),
            metadata matches Some(m) ==> final(self).app_id@ == text_of(m.app_id),
            final(self).same_but_names(old(self)),
    {
        if let Some(m) = metadata {
            self.title = text_or_empty(m.title);
            self.app_id = text_or_empty(m.app_id);
        }
    }
}

/// Position `i` holds the first toplevel with this surface.
pub open spec fn is_first_toplevel(
    toplevels: Seq<ToplevelInfo>,
    i: int,
    surface: SurfaceId,
) -> bool {
    &&& 0 <= i < toplevels.len()
    &&& toplevels[i].surface == surface
    &&& forall|j: int| 0 <= j < i ==> (#[trigger] toplevels[j]).surface != surface
}

/// Some toplevel has this surface.
pub open spec fn has_toplevel(toplevels: Seq<ToplevelInfo>, surface: SurfaceId) -> bool {
    exists|i: int| is_first_toplevel(toplevels, i, surface)
}

/// Where the first toplevel with this surface stands.
pub open spec fn toplevel_index(toplevels: Seq<ToplevelInfo>, surface: SurfaceId) -> int {
    choose|i: int| is_first_toplevel(toplevels, i, surface)
}

/// The toplevels whose surface is still there, in order.
pub open spec fn living(toplevels: Seq<ToplevelInfo>, alive: Seq<bool>) -> Seq<ToplevelInfo>
    decreases toplevels.len(),
{
    if toplevels.len() == 0 {
        Seq::empty()
    } else if alive[toplevels.len() - 1] {
        living(toplevels.drop_last(), alive).push(toplevels.last())
    } else {
        living(toplevels.drop_last(), alive)
    }
}

/// The state of the compositor.
#[derive(Debug)]
pub struct LookingGlass<T, P, S> {
    pub toplevels: Vec<ToplevelInfo>,
    pub scene: Scene<T>,
    pub ids: VisualIds,
    pub camera: Camera,
    pub spatial_mode: bool,
    pub layout_mode: LayoutMode,
    pub producers: Vec<(VisualId, P)>,
    pub perf: PerfStats,
    pub window_size: (Scalar, Scalar),
    pub last_mouse: (Scalar64, Scalar64),
    /// Whether the pointer is moving a visual or the camera.
    pub dragging: bool,
    /// The receivers of input, by the number of their visual.
    pub input_sinks: HashMap<u64, S>,
}

/// The visual with this identity is shown.
pub open spec fn shown<T>(scene: Scene<T>, id: VisualId) -> bool {
    exists|k: int| 0 <= k < scene.visuals@.len() && (#[trigger] scene.visuals@[k]).id == id
}

impl<T, P, S> LookingGlass<T, P, S> {
    /// What holds between events. Identities in the scene are distinct and
    /// were handed out; a toplevel has a visual exactly when it is shown; and
    /// every visual that a toplevel or a producer has is in the scene and is
    /// no other's.
    pub open spec fn well_formed(&self) -> bool {
        &&& self.scene.well_formed()
        &&& forall|k: int|
            0 <= k < self.scene.visuals@.len() ==> (#[trigger] self.scene.visuals@[k]).id.0
                < self.ids.next
        &&& forall|i: int|
            0 <= i < self.toplevels@.len() ==> (#[trigger] self.toplevels@[i]).well_formed()
        &&& forall|i: int|
            0 <= i < self.toplevels@.len() && (#[trigger] self.toplevels@[i]).visual_id is Some
                ==> shown(self.scene, self.toplevels@[i].visual_id->0)
        &&& forall|i: int|
            0 <= i < self.producers@.len() ==> shown(
                self.scene,
                (#[trigger] self.producers@[i]).0,
            )
        &&& forall|i: int, j: int|
            0 <= i < j < self.toplevels@.len() && (#[trigger] self.toplevels@[i]).visual_id is Some
                ==> self.toplevels@[i].visual_id != (#[trigger] self.toplevels@[j]).visual_id
        &&& forall|i: int, j: int|
            0 <= i < j < self.producers@.len() ==> (#[trigger] self.producers@[i]).0 != (
            #[trigger] self.producers@[j]).0
        &&& forall|i: int, j: int|
            0 <= i < self.toplevels@.len() && 0 <= j < self.producers@.len() ==> (
            #[trigger] self.toplevels@[i]).visual_id != Some((#[trigger] self.producers@[j]).0)
    }

    /// No windows, an empty scene, the default camera. Visuals get their
    /// identities from `ids`, which goes on where it is.
    pub fn new(ids: VisualIds) -> (state: LookingGlass<T, P, S>)
        ensures
            state.toplevels@ == Seq::<ToplevelInfo>::empty(),
            state.scene.visuals@ == Seq::<Visual<T>>::empty(),
            state.scene.selected_id is None,
            state.scene.focused_id is None,
            state.ids == ids,
            state.camera.is_initial(),
            !state.spatial_mode,
            state.layout_mode == LayoutMode::Freeform,
            state.producers@ == Seq::<(VisualId, P)>::empty(),
            state.perf == PerfStats::fresh(state.perf.clock.origin),
            state.perf.well_formed(),
            state.window_size.0.bits == WINDOW_WIDTH_BITS,
            state.window_size.1.bits == WINDOW_HEIGHT_BITS,
            state.last_mouse.0.bits == 0,
            state.last_mouse.1.bits == 0,
            !state.dragging,
            state.input_sinks@ == Map::<u64, S>::empty(),
            state.well_formed(),
    {
        LookingGlass {
            toplevels: Vec::new(),
            scene: Scene::default(),
            ids,
            camera: Camera::new(),
            spatial_mode: false,
            layout_mode: LayoutMode::Freeform,
            producers: Vec::new(),
            perf: PerfStats::new(),
            window_size: (
                Scalar::from_bits(WINDOW_WIDTH_BITS),
                Scalar::from_bits(WINDOW_HEIGHT_BITS),
            ),
            last_mouse: (Scalar64 { bits: 0 }, Scalar64 { bits: 0 }),
            dragging: false,
            input_sinks: HashMap::new(),
        }
    }

    /// The index of the first toplevel with this surface.
    pub fn find_toplevel(&self, surface: SurfaceId) -> (r: Option<usize>)
        ensures
            r is Some <==> has_toplevel(self.toplevels@, surface),
            r matches Some(i) ==> is_first_toplevel(self.toplevels@, i as int, surface) && i
                == toplevel_index(self.toplevels@, surface),
    {
        let mut i: usize = 0;
        while i < self.toplevels.len()
            invariant
                i <= self.toplevels@.len(),
                forall|j: int| 0 <= j < i ==> (#[trigger] self.toplevels@[j]).surface != surface,
            decreases self.toplevels@.len() - i,
        {
            if self.toplevels[i].surface == surface {
                assert(is_first_toplevel(self.toplevels@, i as int, surface));
                return Some(i);
            }
            i += 1;
        }
        None
    }

    /// Forgets the toplevels whose surface is gone.
    pub fn cleanup(&mut self, alive: &Vec<bool>)
        requires
            alive@.len() == old(self).toplevels@.len(),
        ensures
            final(self).toplevels@ == living(old(self).toplevels@, alive@),
            *final(self) == (LookingGlass { toplevels: final(self).toplevels, ..*old(self) }),
            old(self).well_formed() ==> final(self).well_formed(),
    {
        let ghost before = self.toplevels@;
        let mut seen: usize = 0;
        let mut i: usize = 0;
        proof {
            assert(before.skip(0) =~= before);
            assert(before.take(0) =~= Seq::empty());
        }
        while seen < alive.len()
            invariant
                seen <= alive@.len(),
                before == old(self).toplevels@,
                alive@.len() == before.len(),
                i == living(before.take(seen as int), alive@).len(),
                i <= seen,
                self.toplevels@ == living(before.take(seen as int), alive@) + before.skip(
                    seen as int,
                ),
                *self == (LookingGlass { toplevels: self.toplevels, ..*old(self) }),
            decreases alive@.len() - seen,
        {
            proof {
                assert(self.toplevels@[i as int] == before[seen as int]);
                assert(before.take(seen + 1).drop_last() =~= before.take(seen as int));
            }
            if alive[seen] {
                i += 1;
            } else {
                self.toplevels.remove(i);
            }
            seen += 1;
            proof {
                assert(self.toplevels@ =~= living(before.take(seen as int), alive@) + before.skip(
                    seen as int,
                ));
            }
        }
        proof {
            assert(before.take(seen as int) =~= before);
            assert(self.toplevels@ =~= living(before, alive@));
            let left = self.toplevels@;
            assert forall|i: int, j: int| 0 <= i <= j < left.len() implies exists|k: int, l: int|
                0 <= k <= l < before.len() && (i < j ==> k < l) && #[trigger] before[k]
                    == #[trigger] left[i] && #[trigger] before[l] == #[trigger] left[j] by {
                let (k, l) = lemma_living(before, alive@, i, j);
                assert(before[k] == left[i] && before[l] == left[j]);
            }
        }
    }
}

/// What is left of the toplevels was among them, in the same order.
proof fn lemma_living(toplevels: Seq<ToplevelInfo>, alive: Seq<bool>, i: int, j: int) -> (r: (
    int,
    int,
))
    requires
        0 <= i <= j < living(toplevels, alive).len(),
    ensures
        0 <= r.0 <= r.1 < toplevels.len(),
        i < j ==> r.0 < r.1,
        toplevels[r.0] == living(toplevels, alive)[i],
        toplevels[r.1] == living(toplevels, alive)[j],
    decreases toplevels.len(),
{
    let front = toplevels.drop_last();
    let rest = living(front, alive);
    if j < rest.len() {
        lemma_living(front, alive, i, j)
    } else if i < j {
        (lemma_living(front, alive, i, i).0, toplevels.len() - 1)
    } else {
        (toplevels.len() - 1, toplevels.len() - 1)
    }
}

/// A part of a surface that has changed: in pixels of the buffer, or in
/// coordinates of the surface.
#[derive(Debug, Clone, Copy, PartialEq, Eq, Structural)]
pub enum Damage {
    Buffer(Rect),
    Surface(Rect),
}

/// The number fits 32 bits with a sign.
pub open spec fn fits(n: int) -> bool {
    i32::MIN <= n <= i32::MAX
}

/// The scale of a buffer, at least one.
pub open spec fn effective_scale(buffer_scale: i32) -> int {
    if buffer_scale < 1 {
        1
    } else {
        buffer_scale as int
    }
}

impl Damage {
    /// In pixels of the buffer, the damage fits 32 bits.
    pub open spec fn scales(self, scale: int) -> bool {
        match self {
            Damage::Buffer(_) => true,
            Damage::Surface(r) => fits(r.x * scale) && fits(r.y * scale) && fits(r.w * scale)
                && fits(r.h * scale),
        }
    }

    /// The damage in pixels of the buffer.
    pub open spec fn in_buffer(self, scale: int) -> Rect {
        match self {
            Damage::Buffer(r) => r,
            Damage::Surface(r) => Rect {
                x: (r.x * scale) as i32,
                y: (r.y * scale) as i32,
                w: (r.w * scale) as i32,
                h: (r.h * scale) as i32,
            },
        }
    }
}

/// In pixels of a buffer of this scale, all of the damage fits 32 bits.
pub open spec fn all_scale(damage: Seq<Damage>, buffer_scale: i32) -> bool {
    forall|i: int|
        0 <= i < damage.len() ==> (#[trigger] damage[i]).scales(effective_scale(buffer_scale))
}

/// Whether the product of the two numbers fits 32 bits.
fn product_fits(a: i32, b: i32) -> (r: bool)
    ensures
        r == fits(a * b),
{
    a.checked_mul(b).is_some()
}

/// Whether [`buffer_damage`] can be worked out: all of the damage fits 32 bits
/// in pixels of a buffer of this scale.
pub fn damage_scales(damage: &Vec<Damage>, buffer_scale: i32) -> (r: bool)
    ensures
        r == all_scale(damage@, buffer_scale),
{
    let scale: i32 = if buffer_scale < 1 {
        1
    } else {
        buffer_scale
    };
    let mut i: usize = 0;
    while i < damage.len()
        invariant
            i <= damage@.len(),
            scale == effective_scale(buffer_scale),
            forall|j: int|
                0 <= j < i ==> (#[trigger] damage@[j]).scales(effective_scale(buffer_scale)),
        decreases damage@.len() - i,
    {
        let ghost part = damage@[i as int];
        if let Damage::Surface(r) = damage[i] {
            if !(product_fits(r.x, scale) && product_fits(r.y, scale) && product_fits(r.w, scale)
                && product_fits(r.h, scale)) {
                assert(!part.scales(effective_scale(buffer_scale)));
                return false;
            }
        }
        i += 1;
    }
    true
}

/// The damage of a surface in pixels of its buffer, in order. Scales below one
/// count as one.
pub fn buffer_damage(damage: &Vec<Damage>, buffer_scale: i32) -> (r: Vec<Rect>)
    requires
        all_scale(damage@, buffer_scale),
    ensures
        r@.len() == damage@.len(),
        forall|i: int|
            0 <= i < r@.len() ==> #[trigger] r@[i] == damage@[i].in_buffer(
                effective_scale(buffer_scale),
            ),
{
    let scale: i32 = if buffer_scale < 1 {
        1
    } else {
        buffer_scale
    };
    let mut r: Vec<Rect> = Vec::new();
    let mut i: usize = 0;
    while i < damage.len()
        invariant
            i <= damage@.len(),
            scale == effective_scale(buffer_scale),
            forall|j: int|
                0 <= j < damage@.len() ==> (#[trigger] damage@[j]).scales(
                    effective_scale(buffer_scale),
                ),
            r@.len() == i,
            forall|j: int|
                0 <= j < i ==> #[trigger] r@[j] == damage@[j].in_buffer(
                    effective_scale(buffer_scale),
                ),
        decreases damage@.len() - i,
    {
        assert(damage@[i as int].scales(scale as int));
        match damage[i] {
            Damage::Buffer(rect) => r.push(rect),
            Damage::Surface(rect) => r.push(
                Rect {
                    x: rect.x * scale,
                    y: rect.y * scale,
                    w: rect.w * scale,
                    h: rect.h * scale,
                },
            ),
        }
        i += 1;
    }
    r
}

/// Where a toplevel is shown at first: how far to the right, how far to the
/// front, and by how many degrees it is turned about the vertical axis.
#[derive(Debug, Clone, Copy, PartialEq, Eq, Structural)]
pub struct Placement {
    pub x: i128,
    pub z: i128,
    pub angle_y: i128,
}

/// The place of toplevel number `index` of `count`. The first three stand at
/// staggered depths, the outer two turned a little; the depth of the others
/// grows with their number, and all spread out to the right.
pub open spec fn placement(index: int, count: int) -> Placement {
    Placement {
        x: (20 * index - 10 * (count - 1)) as i128,
        z: if index == 0 {
            (-200) as i128
        } else if index == 1 {
            0
        } else if index == 2 {
            200
        } else {
            (50 * index) as i128
        },
        angle_y: if index == 0 {
            5
        } else if index == 2 {
            (-5) as i128
        } else {
            0
        },
    }
}

/// What new content of a surface asks for.
#[derive(Debug, Clone, Copy, PartialEq, Eq, Structural)]
pub enum CommitPlan {
    /// The surface is no toplevel.
    Ignore,
    /// The toplevel is shown already; its texture is to be replaced.
    Update,
    /// The toplevel is to be shown, at this place.
    Show(Placement),
}

/// A new visual at a place of its own.
pub open spec fn placed<T>(
    id: VisualId,
    content: VisualContent<T>,
    size: (i32, i32),
    position: Vector3,
    rotation: Quaternion,
) -> Visual<T> {
    Visual {
        transform: Transform3D { position, rotation, ..Transform3D::unit() },
        ..Visual::fresh(id, content, Rect { x: 0, y: 0, w: size.0, h: size.1 })
    }
}

impl<T, P, S> LookingGlass<T, P, S> {
    /// Decides what new content of a surface asks for.
    pub fn plan_commit(&self, surface: SurfaceId) -> (plan: CommitPlan)
        ensures
            plan == if !has_toplevel(self.toplevels@, surface) {
                CommitPlan::Ignore
            } else {
                let i = toplevel_index(self.toplevels@, surface);
                if self.toplevels@[i].lifecycle == SurfaceLifecycle::Mapped {
                    CommitPlan::Update
                } else {
                    CommitPlan::Show(placement(i, self.toplevels@.len() as int))
                }
            },
    {
        match self.find_toplevel(surface) {
            None => CommitPlan::Ignore,
            Some(index) => {
                if self.toplevels[index].lifecycle == SurfaceLifecycle::Mapped {
                    return CommitPlan::Update;
                }
                let i: i128 = index as i128;
                let n: i128 = self.toplevels.len() as i128;
                CommitPlan::Show(
                    Placement {
                        x: i * 20 - (n - 1) * 10,
                        z: if index == 0 {
                            -200
                        } else if index == 1 {
                            0
                        } else if index == 2 {
                            200
                        } else {
                            i * 50
                        },
                        angle_y: if index == 0 {
                            5
                        } else if index == 2 {
                            -5
                        } else {
                            0
                        },
                    },
                )
            },
        }
    }

    /// Creates a visual and adds it to the scene under a fresh identity.
    fn show(
        &mut self,
        content: VisualContent<T>,
        size: (i32, i32),
        position: Vector3,
        rotation: Quaternion,
    ) -> (id: VisualId)
        ensures
            id.0 == old(self).ids.next,
            final(self).ids.next == successor(old(self).ids.next),
            final(self).scene.visuals@ == old(self).scene.visuals@.push(
                placed(id, content, size, position, rotation),
            ),
            final(self).scene.same_targets(&old(self).scene),
            *final(self) == (LookingGlass {
                ids: final(self).ids,
                scene: final(self).scene,
                ..*old(self)
            }),
            final(self).scene.visuals@.last().id == id,
            final(self).scene.visuals@.last().content == content,
            final(self).scene.visuals@.last().geometry == (Rect { x: 0, y: 0, w: size.0, h: size.1 }),
            final(self).scene.visuals@.last().transform.position == position,
            final(self).scene.visuals@.last().transform.rotation == rotation,
            final(self).scene.visuals@.last().transform.scale == Transform3D::unit().scale,
            !final(self).scene.visuals@.last().selected,
            old(self).well_formed() && old(self).ids.next < u64::MAX ==> {
                &&& final(self).well_formed()
                &&& shown(final(self).scene, id)
                &&& !shown(old(self).scene, id)
            },
    {
        let id = VisualId::next(&mut self.ids);
        let mut visual = Visual::new(id, content, Rect { x: 0, y: 0, w: size.0, h: size.1 });
        visual.transform.position = position;
        visual.transform.rotation = rotation;
        proof {
            if old(self).well_formed() && has_visual(old(self).scene.visuals@, id) {
                let k = first_with_id(old(self).scene.visuals@, id);
                assert(old(self).scene.visuals@[k].id == id);
            }
        }
        self.scene.add(visual);
        proof {
            let before = old(self).scene.visuals@;
            let after = self.scene.visuals@;
            assert(after[before.len() as int].id == id);
            assert forall|k: int| 0 <= k < before.len() implies #[trigger] before[k] == after[k] by {}
            assert forall|x: VisualId| shown(old(self).scene, x) implies shown(self.scene, x) by {
                let k = choose|k: int| 0 <= k < before.len() && (#[trigger] before[k]).id == x;
                assert(after[k].id == x);
            }
        }
        id
    }

    /// Takes over new content of a surface: the first content of a toplevel
    /// makes it appear, at the place worked out from its plan; later content
    /// replaces the texture of its visual. Gives the identity of a visual that
    /// was made.
    pub fn handle_commit(
        &mut self,
        surface: SurfaceId,
        texture: T,
        size: (i32, i32),
        position: Vector3,
        rotation: Quaternion,
    ) -> (mapped: Option<VisualId>)
        ensures
            !has_toplevel(old(self).toplevels@, surface) ==> mapped is None && *final(self) == *old(
                self),
            has_toplevel(old(self).toplevels@, surface) ==> {
                let i = toplevel_index(old(self).toplevels@, surface);
                let info = old(self).toplevels@[i];
                if info.lifecycle != SurfaceLifecycle::Mapped {
                    let id = VisualId(old(self).ids.next);
                    &&& mapped == Some(id)
                    &&& final(self).ids.next == successor(old(self).ids.next)
                    &&& final(self).scene.visuals@ == old(self).scene.visuals@.push(
                        placed(id, VisualContent::WaylandSurface(texture), size, position, rotation),
                    )
                    &&& final(self).toplevels@ == old(self).toplevels@.update(
                        i,
                        ToplevelInfo {
                            lifecycle: SurfaceLifecycle::Mapped,
                            size: Some(size),
                            visual_id: Some(id),
                            ..info
                        },
                    )
                } else {
                    &&& mapped is None
                    &&& final(self).ids == old(self).ids
                    &&& final(self).toplevels@ == old(self).toplevels@
                    &&& final(self).scene.visuals@ == match info.visual_id {
                        Some(id) => changed(
                            old(self).scene.visuals@,
                            id,
                            |v: Visual<T>| Visual { content: v.content.holding(texture), ..v },
                        ),
                        None => old(self).scene.visuals@,
                    }
                }
            },
            mapped is Some ==> {
                let v = final(self).scene.visuals@.last();
                &&& final(self).scene.visuals@.len() == old(self).scene.visuals@.len() + 1
                &&& mapped == Some(v.id)
                &&& v.content == VisualContent::WaylandSurface(texture)
                &&& v.geometry.x == 0 && v.geometry.y == 0
                &&& v.geometry.w == size.0 && v.geometry.h == size.1
                &&& v.transform.position == position
                &&& v.transform.rotation == rotation
                &&& v.transform.scale.x.bits == 0x3f80_0000
                &&& v.transform.scale.y.bits == 0x3f80_0000
                &&& v.transform.scale.z.bits == 0x3f80_0000
                &&& !v.selected
            },
            forall|k: int|
                0 <= k < old(self).scene.visuals@.len() ==> (
                #[trigger] final(self).scene.visuals@[k]).id == old(self).scene.visuals@[k].id
                    && final(self).scene.visuals@[k].transform
                    == old(self).scene.visuals@[k].transform && final(self).scene.visuals@[k].geometry
                    == old(self).scene.visuals@[k].geometry,
            final(self).scene.selected_id == old(self).scene.selected_id,
            final(self).scene.focused_id == old(self).scene.focused_id,
            final(self).scene.same_targets(&old(self).scene),
            *final(self) == (LookingGlass {
                ids: final(self).ids,
                scene: final(self).scene,
                toplevels: final(self).toplevels,
                ..*old(self)
            }),
            old(self).well_formed() && old(self).ids.next < u64::MAX ==> final(self).well_formed(),
    {
        let index: usize = match self.find_toplevel(surface) {
            Some(i) => i,
            None => return None,
        };
        if self.toplevels[index].lifecycle != SurfaceLifecycle::Mapped {
            let id = self.show(VisualContent::WaylandSurface(texture), size, position, rotation);
            self.toplevels[index].lifecycle = SurfaceLifecycle::Mapped;
            self.toplevels[index].size = Some(size);
            self.toplevels[index].visual_id = Some(id);
            Some(id)
        } else {
            if let Some(id) = self.toplevels[index].visual_id {
                self.scene.replace_texture(id, texture);
                proof {
                    lemma_same_identities(*old(self), *self);
                }
            }
            None
        }
    }
}

/// Changing visuals without touching their identities keeps what holds
/// between events.
pub(crate) proof fn lemma_same_identities<T, P, S>(
    before: LookingGlass<T, P, S>,
    after: LookingGlass<T, P, S>,
)
    requires
        after.scene.visuals@.len() == before.scene.visuals@.len(),
        forall|k: int|
            0 <= k < before.scene.visuals@.len() ==> (#[trigger] after.scene.visuals@[k]).id
                == before.scene.visuals@[k].id,
        before.well_formed() ==> after.scene.well_formed(),
        after.ids == before.ids,
        after.toplevels == before.toplevels,
        after.producers == before.producers,
    ensures
        before.well_formed() ==> after.well_formed(),
{
    assert forall|x: VisualId| shown(before.scene, x) implies shown(after.scene, x) by {
        let k = choose|k: int|
            0 <= k < before.scene.visuals@.len() && (#[trigger] before.scene.visuals@[k]).id == x;
        assert(after.scene.visuals@[k].id == x);
    }
}

/// The quotient, rounded towards zero.
pub open spec fn quotient(a: int, b: int) -> int {
    if a >= 0 {
        a / b
    } else {
        -((-a) / b)
    }
}

/// What the quotient leaves over; it has the sign of `a`.
pub open spec fn remainder(a: int, b: int) -> int {
    if a >= 0 {
        a % b
    } else {
        -((-a) % b)
    }
}

/// The place of a benchmark visual: its position, and whether it is turned.
#[derive(Debug, Clone, Copy, PartialEq, Eq, Structural)]
pub struct GridCell {
    pub x: i32,
    pub y: i32,
    pub turned: bool,
}

/// The horizontal place of benchmark visual `index` in a grid of `cols`
/// columns around the origin.
pub open spec fn grid_x(index: int, cols: int) -> int {
    remainder(index, cols) * BENCHMARK_SPACING - quotient(cols * BENCHMARK_SPACING, 2)
}

/// The vertical place of benchmark visual `index` of `total`.
pub open spec fn grid_y(index: int, total: int, cols: int) -> int {
    quotient(index, cols) * BENCHMARK_SPACING - quotient(
        quotient(total, cols) * BENCHMARK_SPACING,
        2,
    )
}

/// A grid of `cols` columns has a place for benchmark visual `index` of
/// `total`: there is a column, and all numbers on the way fit 32 bits. `index`
/// and `total` count as 32-bit numbers.
pub open spec fn grid_has_place(index: usize, total: usize, cols: i32) -> bool {
    let i = index as i32 as int;
    let n = total as i32 as int;
    &&& cols > 0
    &&& fits(cols * BENCHMARK_SPACING)
    &&& fits(remainder(i, cols as int) * BENCHMARK_SPACING)
    &&& fits(quotient(i, cols as int) * BENCHMARK_SPACING)
    &&& fits(quotient(n, cols as int) * BENCHMARK_SPACING)
    &&& fits(grid_x(i, cols as int))
    &&& fits(grid_y(i, n, cols as int))
}

/// Whether [`benchmark_cell`] can be worked out.
pub fn grid_fits(index: usize, total: usize, cols: i32) -> (r: bool)
    ensures
        r == grid_has_place(index, total, cols),
{
    if cols <= 0 {
        return false;
    }
    #[verifier::truncate]
    let i: i32 = index as i32;
    #[verifier::truncate]
    let n: i32 = total as i32;
    let column: i32 = i % cols;
    let row: i32 = i / cols;
    let rows: i32 = n / cols;
    match (
        cols.checked_mul(BENCHMARK_SPACING),
        column.checked_mul(BENCHMARK_SPACING),
        row.checked_mul(BENCHMARK_SPACING),
        rows.checked_mul(BENCHMARK_SPACING),
    ) {
        (Some(width), Some(x), Some(y), Some(height)) => x.checked_sub(width / 2).is_some()
            && y.checked_sub(height / 2).is_some(),
        _ => false,
    }
}

/// The place of benchmark visual `index` of `total` in a grid of `cols`
/// columns. The visuals of every other row are turned. Numbers beyond 32 bits
/// wrap around.
pub fn benchmark_cell(index: usize, total: usize, cols: i32) -> (cell: GridCell)
    requires
        grid_has_place(index, total, cols),
    ensures
        cell.x == grid_x(index as i32 as int, cols as int),
        cell.y == grid_y(index as i32 as int, total as i32 as int, cols as int),
        cell.turned == ((index as int / cols as int) % 2 == 1),
{
    #[verifier::truncate]
    let i: i32 = index as i32;
    #[verifier::truncate]
    let n: i32 = total as i32;
    let x: i32 = (i % cols) * BENCHMARK_SPACING - (cols * BENCHMARK_SPACING) / 2;
    let y: i32 = (i / cols) * BENCHMARK_SPACING - (n / cols * BENCHMARK_SPACING) / 2;
    let turned: bool = (index / cols as usize) % 2 == 1;
    GridCell { x, y, turned }
}

impl<T, P, S> LookingGlass<T, P, S> {
    /// Registers a toplevel that was announced and told its configuration,
    /// after forgetting those whose surface is gone.
    pub fn new_toplevel(
        &mut self,
        alive: &Vec<bool>,
        surface: SurfaceId,
        metadata: Option<SurfaceMetadata>,
    )
        requires
            alive@.len() == old(self).toplevels@.len(),
        ensures
            final(self).toplevels@.len() > 0,
            final(self).toplevels@.drop_last() == living(old(self).toplevels@, alive@),
            ({
                let info = final(self).toplevels@.last();
                &&& info.surface == surface
                &&& info.lifecycle == SurfaceLifecycle::Configured
                &&& info.visual_id is None
                &&& info.size is None
                &&& info.title@ == match metadata {
                    Some(m) => text_of(m.title),
                    None => Seq::empty(),
                }
                &&& info.app_id@ == match metadata {
                    Some(m) => text_of(m.app_id),
                    None => Seq::empty(),
                }
            }),
            *final(self) == (LookingGlass { toplevels: final(self).toplevels, ..*old(self) }),
            old(self).well_formed() ==> final(self).well_formed(),
    {
        self.cleanup(alive);
        let mut info = ToplevelInfo::new(surface, metadata);
        info.lifecycle = SurfaceLifecycle::Configured;
        let ghost rest = self.toplevels@;
        self.toplevels.push(info);
        proof {
            assert(self.toplevels@.drop_last() =~= rest);
        }
    }

    /// Takes over the names of a toplevel. True if its title is another one
    /// now.
    pub fn title_changed(
        &mut self,
        surface: SurfaceId,
        metadata: Option<SurfaceMetadata>,
    ) -> (r: bool)
        ensures
            old(self).refreshed(surface, metadata, final(self)),
            r == (has_toplevel(old(self).toplevels@, surface) && {
                let i = toplevel_index(old(self).toplevels@, surface);
                final(self).toplevels@[i].title@ != old(self).toplevels@[i].title@
            }),
            old(self).well_formed() ==> final(self).well_formed(),
    {
        match self.find_toplevel(surface) {
            Some(i) => {
                let before = self.toplevels[i].title.clone();
                self.toplevels[i].refresh_metadata(metadata);
                self.toplevels[i].title != before
            },
            None => false,
        }
    }

    /// Takes over the names of a toplevel. True if its application is another
    /// one now.
    pub fn app_id_changed(
        &mut self,
        surface: SurfaceId,
        metadata: Option<SurfaceMetadata>,
    ) -> (r: bool)
        ensures
            old(self).refreshed(surface, metadata, final(self)),
            r == (has_toplevel(old(self).toplevels@, surface) && {
                let i = toplevel_index(old(self).toplevels@, surface);
                final(self).toplevels@[i].app_id@ != old(self).toplevels@[i].app_id@
            }),
            old(self).well_formed() ==> final(self).well_formed(),
    {
        match self.find_toplevel(surface) {
            Some(i) => {
                let before = self.toplevels[i].app_id.clone();
                self.toplevels[i].refresh_metadata(metadata);
                self.toplevels[i].app_id != before
            },
            None => false,
        }
    }

    /// `after` is this state with the names of one toplevel taken over, where
    /// there is such a toplevel and metadata, and otherwise the same.
    pub open spec fn refreshed(
        &self,
        surface: SurfaceId,
        metadata: Option<SurfaceMetadata>,
        after: &LookingGlass<T, P, S>,
    ) -> bool {
        let i = toplevel_index(self.toplevels@, surface);
        &&& *after == (LookingGlass { toplevels: after.toplevels, ..*self })
        &&& after.toplevels@.len() == self.toplevels@.len()
        &&& forall|j: int|
            0 <= j < self.toplevels@.len() && !(has_toplevel(self.toplevels@, surface) && j == i)
                ==> #[trigger] after.toplevels@[j] == self.toplevels@[j]
        &&& has_toplevel(self.toplevels@, surface) ==> {
            &&& after.toplevels@[i].same_but_names(&self.toplevels@[i])
            &&& match metadata {
                Some(m) => {
                    &&& after.toplevels@[i].title@ == text_of(m.title)
                    &&& after.toplevels@[i].app_id@ == text_of(m.app_id)
                },
                None => after.toplevels@[i] == self.toplevels@[i],
            }
        }
    }

    /// Forgets a toplevel whose surface was destroyed and removes its visual.
    pub fn toplevel_destroyed(&mut self, surface: SurfaceId) -> (r: Option<ToplevelInfo>)
        ensures
            !has_toplevel(old(self).toplevels@, surface) ==> r is None && *final(self) == *old(
                self),
            has_toplevel(old(self).toplevels@, surface) ==> {
                let i = toplevel_index(old(self).toplevels@, surface);
                let info = old(self).toplevels@[i];
                &&& r == Some(info)
                &&& final(self).toplevels@ == old(self).toplevels@.remove(i)
                &&& match info.visual_id {
                    Some(id) => {
                        &&& final(self).scene.visuals@ == old(self).scene.visuals@.filter(
                            other_than(id),
                        )
                        &&& final(self).scene.selected_id == if old(self).scene.selected_id
                            == Some(id) {
                            None
                        } else {
                            old(self).scene.selected_id
                        }
                    },
                    None => {
                        &&& final(self).scene.visuals@ == old(self).scene.visuals@
                        &&& final(self).scene.selected_id == old(self).scene.selected_id
                    },
                }
            },
            final(self).scene.focused_id == old(self).scene.focused_id,
            *final(self) == (LookingGlass {
                scene: final(self).scene,
                toplevels: final(self).toplevels,
                ..*old(self)
            }),
            old(self).well_formed() ==> final(self).well_formed(),
    {
        match self.find_toplevel(surface) {
            Some(i) => {
                let info = self.toplevels.remove(i);
                if let Some(id) = info.visual_id {
                    proof {
                        assert forall|k: int| 0 <= k < self.toplevels@.len() && k
                            >= i implies #[trigger] self.toplevels@[k] == old(self).toplevels@[k
                            + 1] by {}
                        assert(old(self).toplevels@[i as int].visual_id == Some(id));
                    }
                    self.scene.remove(id);
                    proof {
                        lemma_filter_keeps(old(self).scene.visuals@, id);
                        lemma_others_stay_shown(old(self).scene, self.scene, id);
                    }
                }
                Some(info)
            },
            None => None,
        }
    }

    /// Shows a texture that no client and no producer provides.
    pub fn add_external_visual(&mut self, texture: T, width: u32, height: u32) -> (id: VisualId)
        ensures
            id.0 == old(self).ids.next,
            final(self).ids.next == successor(old(self).ids.next),
            final(self).scene.visuals@ == old(self).scene.visuals@.push(
                Visual::fresh(
                    id,
                    VisualContent::ExternalTexture(texture),
                    Rect { x: 0, y: 0, w: width as i32, h: height as i32 },
                ),
            ),
            ({
                let v = final(self).scene.visuals@.last();
                &&& final(self).scene.visuals@.drop_last() == old(self).scene.visuals@
                &&& v.id.0 == old(self).ids.next
                &&& v.content == VisualContent::ExternalTexture(texture)
                &&& v.geometry == (Rect { x: 0, y: 0, w: width as i32, h: height as i32 })
                &&& v.transform.position == Transform3D::unit().position
                &&& v.transform.rotation == Transform3D::unit().rotation
                &&& v.transform.scale == Transform3D::unit().scale
                &&& !v.selected
            }),
            final(self).scene.same_targets(&old(self).scene),
            *final(self) == (LookingGlass {
                ids: final(self).ids,
                scene: final(self).scene,
                ..*old(self)
            }),
            old(self).well_formed() && old(self).ids.next < u64::MAX ==> final(self).well_formed(),
    {
        let unit = Transform3D::identity();
        #[verifier::truncate]
        let w: i32 = width as i32;
        #[verifier::truncate]
        let h: i32 = height as i32;
        self.show(VisualContent::ExternalTexture(texture), (w, h), unit.position, unit.rotation)
    }

    /// Registers the receiver of input for a visual, in place of an earlier
    /// one.
    pub fn register_input_sink(&mut self, id: VisualId, sink: S)
        ensures
            final(self).input_sinks@ == old(self).input_sinks@.insert(id.0, sink),
            *final(self) == (LookingGlass { input_sinks: final(self).input_sinks, ..*old(self) }),
            old(self).well_formed() ==> final(self).well_formed(),
    {
        self.input_sinks.insert(id.0, sink);
    }

    /// Shows the frames of a producer at a place of its own.
    fn show_producer(
        &mut self,
        producer: P,
        texture: T,
        size: (u32, u32),
        position: Vector3,
        rotation: Quaternion,
    ) -> (id: VisualId)
        ensures
            id.0 == old(self).ids.next,
            final(self).ids.next == successor(old(self).ids.next),
            final(self).scene.visuals@ == old(self).scene.visuals@.push(
                placed(
                    id,
                    VisualContent::ExternalTexture(texture),
                    (size.0 as i32, size.1 as i32),
                    position,
                    rotation,
                ),
            ),
            final(self).scene.same_targets(&old(self).scene),
            final(self).producers@ == old(self).producers@.push((id, producer)),
            *final(self) == (LookingGlass {
                ids: final(self).ids,
                scene: final(self).scene,
                producers: final(self).producers,
                ..*old(self)
            }),
            old(self).well_formed() && old(self).ids.next < u64::MAX ==> final(self).well_formed(),
    {
        #[verifier::truncate]
        let w: i32 = size.0 as i32;
        #[verifier::truncate]
        let h: i32 = size.1 as i32;
        let id = self.show(VisualContent::ExternalTexture(texture), (w, h), position, rotation);
        self.producers.push((id, producer));
        id
    }

    /// Registers a benchmark producer, given what its first update said, and
    /// shows its frames at the place worked out from its grid cell. A producer
    /// whose first update did anything but leave its frame unchanged is not
    /// registered.
    pub fn add_benchmark_visual(
        &mut self,
        producer: P,
        first: &FrameResult,
        texture: Option<T>,
        size: (u32, u32),
        position: Vector3,
        rotation: Quaternion,
    ) -> (id: Option<VisualId>)
        requires
            first is Unchanged ==> texture is Some,
        ensures
            !(first is Unchanged) ==> id is None && *final(self) == *old(self),
            first is Unchanged ==> {
                &&& id == Some(VisualId(old(self).ids.next))
                &&& final(self).ids.next == successor(old(self).ids.next)
                &&& final(self).scene.visuals@ == old(self).scene.visuals@.push(
                    placed(
                        VisualId(old(self).ids.next),
                        VisualContent::ExternalTexture(texture->0),
                        (size.0 as i32, size.1 as i32),
                        position,
                        rotation,
                    ),
                )
                &&& final(self).producers@ == old(self).producers@.push(
                    (VisualId(old(self).ids.next), producer),
                )
            },
            first is Unchanged ==> {
                let v = final(self).scene.visuals@.last();
                &&& final(self).scene.visuals@.drop_last() == old(self).scene.visuals@
                &&& v.id.0 == old(self).ids.next
                &&& v.content == VisualContent::ExternalTexture(texture->0)
                &&& v.geometry == (Rect { x: 0, y: 0, w: size.0 as i32, h: size.1 as i32 })
                &&& v.transform.position == position
                &&& v.transform.rotation == rotation
                &&& v.transform.scale == Transform3D::unit().scale
                &&& !v.selected
            },
            final(self).scene.same_targets(&old(self).scene),
            *final(self) == (LookingGlass {
                ids: final(self).ids,
                scene: final(self).scene,
                producers: final(self).producers,
                ..*old(self)
            }),
            old(self).well_formed() && old(self).ids.next < u64::MAX ==> final(self).well_formed(),
    {
        match first {
            FrameResult::Unchanged => match texture {
                Some(t) => Some(self.show_producer(producer, t, size, position, rotation)),
                None => None,
            },
            _ => None,
        }
    }

    /// Registers a producer, given what its first update said, and shows its
    /// frames; its receiver of input, if it has one, is registered with it. A
    /// producer that has no frame to show at first is not registered.
    pub fn add_producer(
        &mut self,
        producer: P,
        first: &FrameResult,
        texture: Option<T>,
        size: (u32, u32),
        sink: Option<S>,
    ) -> (id: Option<VisualId>)
        requires
            first.usable() ==> texture is Some,
        ensures
            !first.usable() ==> id is None && *final(self) == *old(self),
            first.usable() ==> {
                &&& id == Some(VisualId(old(self).ids.next))
                &&& final(self).ids.next == successor(old(self).ids.next)
                &&& final(self).scene.visuals@ == old(self).scene.visuals@.push(
                    placed(
                        VisualId(old(self).ids.next),
                        VisualContent::ExternalTexture(texture->0),
                        (size.0 as i32, size.1 as i32),
                        Vector3 {
                            y: Scalar { bits: PRODUCER_HEIGHT_BITS },
                            ..Transform3D::unit().position
                        },
                        Transform3D::unit().rotation,
                    ),
                )
                &&& final(self).producers@ == old(self).producers@.push(
                    (VisualId(old(self).ids.next), producer),
                )
                &&& final(self).input_sinks@ == match sink {
                    Some(s) => old(self).input_sinks@.insert(old(self).ids.next, s),
                    None => old(self).input_sinks@,
                }
            },
            first is Updated || first is Unchanged || first is Resized ==> id is Some && {
                let v = final(self).scene.visuals@.last();
                &&& final(self).scene.visuals@.drop_last() == old(self).scene.visuals@
                &&& v.id.0 == old(self).ids.next
                &&& v.content == VisualContent::ExternalTexture(texture->0)
                &&& v.geometry == (Rect { x: 0, y: 0, w: size.0 as i32, h: size.1 as i32 })
                &&& v.transform.position.x.bits == 0
                &&& v.transform.position.y.bits == PRODUCER_HEIGHT_BITS
                &&& v.transform.position.z.bits == 0
                &&& v.transform.rotation == Transform3D::unit().rotation
                &&& v.transform.scale == Transform3D::unit().scale
                &&& !v.selected
            },
            first is Error || first is Finished ==> id is None && final(self).producers@
                == old(self).producers@ && final(self).scene.visuals@ == old(self).scene.visuals@,
            final(self).scene.same_targets(&old(self).scene),
            *final(self) == (LookingGlass {
                ids: final(self).ids,
                scene: final(self).scene,
                producers: final(self).producers,
                input_sinks: final(self).input_sinks,
                ..*old(self)
            }),
            old(self).well_formed() && old(self).ids.next < u64::MAX ==> final(self).well_formed(),
    {
        if !first.is_usable() {
            return None;
        }
        match texture {
            Some(t) => {
                let unit = Transform3D::identity();
                let position = Vector3 {
                    x: unit.position.x,
                    y: Scalar::from_bits(PRODUCER_HEIGHT_BITS),
                    z: unit.position.z,
                };
                let id = self.show_producer(producer, t, size, position, unit.rotation);
                if let Some(s) = sink {
                    self.register_input_sink(id, s);
                }
                Some(id)
            },
            None => None,
        }
    }
}

/// Removing an identity from the scene leaves every other visual shown.
pub(crate) proof fn lemma_others_stay_shown<T>(before: Scene<T>, after: Scene<T>, id: VisualId)
    requires
        after.visuals@ == before.visuals@.filter(other_than(id)),
    ensures
        forall|x: VisualId| x != id && shown(before, x) ==> #[trigger] shown(after, x),
{
    lemma_filter_keeps(before.visuals@, id);
    assert forall|x: VisualId| x != id && shown(before, x) implies #[trigger] shown(after, x) by {
        let k = choose|k: int|
            0 <= k < before.visuals@.len() && (#[trigger] before.visuals@[k]).id == x;
        assert(after.visuals@.contains(before.visuals@[k]));
        let l = choose|l: int|
            0 <= l < after.visuals@.len() && after.visuals@[l] == before.visuals@[k];
        assert(after.visuals@[l].id == x);
    }
}

/// The next identity that is handed out belongs to no visual in the scene.
pub proof fn law_next_identity_is_fresh<T, P, S>(state: LookingGlass<T, P, S>)
    requires
        state.well_formed(),
    ensures
        !shown(state.scene, VisualId(state.ids.next)),
        !has_visual(state.scene.visuals@, VisualId(state.ids.next)),
{
    let visuals = state.scene.visuals@;
    let id = VisualId(state.ids.next);
    if has_visual(visuals, id) {
        assert(visuals[first_with_id(visuals, id)].id == id);
    }
}

/// Toplevel `i` has a surface that is still there, and it is this one.
pub open spec fn lives(
    toplevels: Seq<ToplevelInfo>,
    alive: Seq<bool>,
    i: int,
    info: ToplevelInfo,
) -> bool {
    0 <= i < toplevels.len() && alive[i] && toplevels[i] == info
}

/// Cleaning up keeps exactly the toplevels whose surface is still there.
pub proof fn law_cleanup_keeps_the_living(
    toplevels: Seq<ToplevelInfo>,
    alive: Seq<bool>,
    info: ToplevelInfo,
)
    requires
        alive.len() >= toplevels.len(),
    ensures
        living(toplevels, alive).contains(info) <==> exists|i: int|
            lives(toplevels, alive, i, info),
    decreases toplevels.len(),
{
    let kept = living(toplevels, alive);
    if toplevels.len() > 0 {
        let last = toplevels.len() - 1;
        let front = toplevels.drop_last();
        let rest = living(front, alive);
        law_cleanup_keeps_the_living(front, alive, info);
        if kept.contains(info) {
            if rest.contains(info) {
                let i = choose|i: int| lives(front, alive, i, info);
                assert(lives(toplevels, alive, i, info));
            } else {
                let k = choose|k: int| 0 <= k < kept.len() && kept[k] == info;
                assert(k < rest.len() ==> rest[k] == info);
                assert(lives(toplevels, alive, last, info));
            }
        }
        if exists|i: int| lives(toplevels, alive, i, info) {
            let i = choose|i: int| lives(toplevels, alive, i, info);
            if i < last {
                assert(lives(front, alive, i, info));
                let k = choose|k: int| 0 <= k < rest.len() && rest[k] == info;
                assert(kept[k] == info);
            } else {
                assert(kept[kept.len() - 1] == info);
            }
        }
    }
}

/// Toplevels are spread evenly about the middle: the first stands as far to
/// the left as the last to the right, and so on inwards.
pub proof fn law_placement_is_centered(index: int, count: int)
    requires
        0 <= index < count <= usize::MAX,
    ensures
        placement(index, count).x == -placement(count - 1 - index, count).x,
{
}

/// The numbers that the bit patterns stand for, in units of two to the power
/// of -149: the window is 1280 wide and 720 high, and the visual of a producer
/// starts 200 above the middle.
pub proof fn law_compositor_numbers()
    ensures
        (Scalar { bits: WINDOW_WIDTH_BITS }).units() == 1280 * pow2(149),
        (Scalar { bits: WINDOW_HEIGHT_BITS }).units() == 720 * pow2(149),
        (Scalar { bits: PRODUCER_HEIGHT_BITS }).units() == 200 * pow2(149),
{
    lemma2_to64();
    lemma_units_of_pattern(Scalar { bits: WINDOW_WIDTH_BITS }, 1280, 13);
    lemma_units_of_pattern(Scalar { bits: WINDOW_HEIGHT_BITS }, 720, 14);
    lemma_units_of_pattern(Scalar { bits: PRODUCER_HEIGHT_BITS }, 200, 16);
}

/// A visual that is shown for the first time stands and faces as it was told,
/// in its own size, under its own identity.
pub proof fn law_shown_visual_is_as_told<T>(
    id: VisualId,
    content: VisualContent<T>,
    size: (i32, i32),
    position: Vector3,
    rotation: Quaternion,
)
    ensures
        ({
            let v = placed(id, content, size, position, rotation);
            &&& v.id == id
            &&& v.content == content
            &&& v.geometry.x == 0 && v.geometry.y == 0
            &&& v.geometry.w == size.0 && v.geometry.h == size.1
            &&& v.transform.position == position
            &&& v.transform.rotation == rotation
            &&& v.transform.scale.x.bits == 0x3f80_0000
            &&& v.transform.scale.y.bits == 0x3f80_0000
            &&& v.transform.scale.z.bits == 0x3f80_0000
            &&& !v.selected
        }),
{
}

/// Text that is given is taken as it is, and none is no text.
pub proof fn law_missing_text_is_empty(text: Option<String>)
    ensures
        text matches Some(s) ==> text_of(text) == s@,
        text is None ==> text_of(text).len() == 0,
{
}

/// Toplevels agree but for their names exactly when surface, lifecycle, visual
/// and size agree.
pub proof fn law_toplevels_agree_but_for_names(a: ToplevelInfo, b: ToplevelInfo)
    ensures
        a.same_but_names(&b) <==> a.surface == b.surface && a.lifecycle == b.lifecycle
            && a.visual_id == b.visual_id && a.size == b.size,
        a.well_formed() <==> (a.visual_id is Some <==> a.lifecycle is Mapped) && (a.size is Some
            <==> a.lifecycle is Mapped),
{
}

/// The toplevel of a surface is the first one that has it.
pub proof fn law_toplevel_of_a_surface(toplevels: Seq<ToplevelInfo>, surface: SurfaceId, i: int)
    requires
        0 <= i < toplevels.len(),
        toplevels[i].surface == surface,
        forall|j: int| 0 <= j < i ==> (#[trigger] toplevels[j]).surface != surface,
    ensures
        has_toplevel(toplevels, surface),
        toplevel_index(toplevels, surface) == i,
{
    assert(is_first_toplevel(toplevels, i, surface));
    let k = toplevel_index(toplevels, surface);
    assert(is_first_toplevel(toplevels, k, surface));
    assert(toplevels[k].surface == surface);
}

/// A surface that no toplevel has belongs to none.
pub proof fn law_surface_without_toplevel(toplevels: Seq<ToplevelInfo>, surface: SurfaceId)
    requires
        forall|i: int| 0 <= i < toplevels.len() ==> (#[trigger] toplevels[i]).surface != surface,
    ensures
        !has_toplevel(toplevels, surface),
{
    if has_toplevel(toplevels, surface) {
        let i = toplevel_index(toplevels, surface);
        assert(toplevels[i].surface == surface);
    }
}

/// What holds between events: identities in the scene are distinct and were
/// handed out, a toplevel has a visual in the scene exactly when it is shown, a
/// producer always has one, and no visual has two owners.
pub proof fn law_state_invariant<T, P, S>(state: LookingGlass<T, P, S>, i: int, j: int)
    requires
        state.well_formed(),
    ensures
        0 <= i < state.scene.visuals@.len() ==> state.scene.visuals@[i].id.0 < state.ids.next,
        0 <= i < j < state.scene.visuals@.len() ==> state.scene.visuals@[i].id
            != state.scene.visuals@[j].id,
        0 <= i < state.toplevels@.len() ==> (state.toplevels@[i].visual_id is Some
            <==> state.toplevels@[i].lifecycle is Mapped),
        0 <= i < state.toplevels@.len() && state.toplevels@[i].visual_id is Some ==> exists|k: int|
            0 <= k < state.scene.visuals@.len() && (#[trigger] state.scene.visuals@[k]).id
                == state.toplevels@[i].visual_id->0,
        0 <= i < state.producers@.len() ==> exists|k: int|
            0 <= k < state.scene.visuals@.len() && (#[trigger] state.scene.visuals@[k]).id
                == state.producers@[i].0,
        0 <= i < j < state.producers@.len() ==> state.producers@[i].0 != state.producers@[j].0,
        0 <= i < state.toplevels@.len() && 0 <= j < state.producers@.len()
            ==> state.toplevels@[i].visual_id != Some(state.producers@[j].0),
        0 <= i < j < state.toplevels@.len() && state.toplevels@[i].visual_id is Some
            ==> state.toplevels@[i].visual_id != state.toplevels@[j].visual_id,
{
    if 0 <= i < state.toplevels@.len() {
        assert(state.toplevels@[i].well_formed());
        if state.toplevels@[i].visual_id is Some {
            assert(shown(state.scene, state.toplevels@[i].visual_id->0));
        }
    }
    if 0 <= i < state.producers@.len() {
        assert(shown(state.scene, state.producers@[i].0));
    }
}

/// Damage in the pixels of the buffer stays; damage in coordinates of the
/// surface grows with the scale of the buffer in every direction, and scales
/// below one count as one.
pub proof fn law_damage_grows_with_the_scale(r: Rect, buffer_scale: i32, damage: Damage)
    ensures
        (Damage::Buffer(r)).in_buffer(effective_scale(buffer_scale)) == r,
        (Damage::Buffer(r)).scales(effective_scale(buffer_scale)),
        buffer_scale <= 1 ==> (Damage::Surface(r)).in_buffer(effective_scale(buffer_scale)) == r,
        buffer_scale <= 1 ==> (Damage::Surface(r)).scales(effective_scale(buffer_scale)),
        buffer_scale >= 1 ==> ((Damage::Surface(r)).scales(effective_scale(buffer_scale)) <==> {
            &&& -0x8000_0000 <= r.x * buffer_scale <= 0x7fff_ffff
            &&& -0x8000_0000 <= r.y * buffer_scale <= 0x7fff_ffff
            &&& -0x8000_0000 <= r.w * buffer_scale <= 0x7fff_ffff
            &&& -0x8000_0000 <= r.h * buffer_scale <= 0x7fff_ffff
        }),
        buffer_scale >= 1 && (Damage::Surface(r)).scales(effective_scale(buffer_scale)) ==> {
            let b = (Damage::Surface(r)).in_buffer(effective_scale(buffer_scale));
            &&& b.x == r.x * buffer_scale
            &&& b.y == r.y * buffer_scale
            &&& b.w == r.w * buffer_scale
            &&& b.h == r.h * buffer_scale
        },
{
}

/// A list of damage fits exactly when each part of it does.
pub proof fn law_damage_fits_part_by_part(damage: Seq<Damage>, last: Damage, buffer_scale: i32)
    ensures
        all_scale(Seq::empty(), buffer_scale),
        all_scale(damage.push(last), buffer_scale) <==> all_scale(damage, buffer_scale)
            && last.scales(effective_scale(buffer_scale)),
{
    let longer = damage.push(last);
    assert(longer[damage.len() as int] == last);
    assert forall|i: int| 0 <= i < damage.len() implies #[trigger] damage[i] == longer[i] by {}
    if all_scale(longer, buffer_scale) {
        assert forall|i: int| 0 <= i < damage.len() implies (#[trigger] damage[i]).scales(
            effective_scale(buffer_scale),
        ) by {
            assert(longer[i].scales(effective_scale(buffer_scale)));
        }
    }
}

/// Where toplevels are placed: each 20 to the right of the one before; the
/// first three at depths of -200, 0 and 200 and turned by 5, 0 and -5 degrees,
/// the others 50 further to the front each and not turned.
pub proof fn law_placement_by_number(index: int, count: int)
    requires
        0 <= index < count <= usize::MAX,
    ensures
        index > 0 ==> placement(index, count).x == placement(index - 1, count).x + 20,
        index == 0 ==> placement(index, count).x == -10 * (count - 1),
        index == 0 ==> placement(index, count).z == -200 && placement(index, count).angle_y == 5,
        index == 1 ==> placement(index, count).z == 0 && placement(index, count).angle_y == 0,
        index == 2 ==> placement(index, count).z == 200 && placement(index, count).angle_y == -5,
        index == 3 ==> placement(index, count).z == 150,
        index > 3 ==> placement(index, count).z == placement(index - 1, count).z + 50,
        index >= 3 ==> placement(index, count).angle_y == 0,
{
}

/// A quotient and what it leaves make up the number again; the rest is smaller
/// than the divisor and has the sign of the number.
pub proof fn law_quotient_and_remainder(a: int, b: int)
    requires
        b > 0,
    ensures
        quotient(a, b) * b + remainder(a, b) == a,
        -b < remainder(a, b) < b,
        a >= 0 ==> remainder(a, b) >= 0,
        a <= 0 ==> remainder(a, b) <= 0,
{
    if a >= 0 {
        vstd::arithmetic::div_mod::lemma_fundamental_div_mod(a, b);
        assert(b * (a / b) == (a / b) * b) by (nonlinear_arith);
    } else {
        vstd::arithmetic::div_mod::lemma_fundamental_div_mod(-a, b);
        let q = (-a) / b;
        assert((-q) * b == -(b * q)) by (nonlinear_arith);
    }
}

/// Along a row of the benchmark grid visuals stand 160 apart, and so do rows;
/// the first column stands half the width of the grid to the left.
pub proof fn law_grid_steps(column: int, row: int, total: int, cols: int)
    requires
        0 < cols,
        0 <= column < cols,
        0 <= row,
        0 <= total,
    ensures
        grid_x(row * cols + column, cols) == 160 * column - 80 * cols,
        grid_y(row * cols + column, total, cols) == 160 * row - 80 * (total / cols),
{
    let index = row * cols + column;
    assert(index >= 0) by (nonlinear_arith)
        requires
            index == row * cols + column,
            row >= 0,
            cols > 0,
            column >= 0,
    ;
    vstd::arithmetic::div_mod::lemma_fundamental_div_mod_converse(index, cols, row, column);
    assert(total / cols >= 0) by {
        vstd::arithmetic::div_mod::lemma_div_pos_is_pos(total, cols);
    }
}

/// A grid has a place for a visual whenever its width, the rows and the place
/// itself are small enough; it has none without a column.
pub proof fn law_grid_needs_a_column(index: usize, total: usize, cols: i32)
    ensures
        cols <= 0 ==> !grid_has_place(index, total, cols),
        cols > 13_421_772 ==> !grid_has_place(index, total, cols),
        grid_has_place(index, total, cols) ==> {
            &&& -0x8000_0000 <= grid_x(index as i32 as int, cols as int) <= 0x7fff_ffff
            &&& -0x8000_0000 <= grid_y(index as i32 as int, total as i32 as int, cols as int)
                <= 0x7fff_ffff
        },
{
}

/// Small grids always have a place.
pub proof fn law_small_grids_have_places(index: usize, total: usize, cols: i32)
    requires
        0 < cols <= 1_000_000,
        index <= 1_000_000,
        total <= 1_000_000,
    ensures
        grid_has_place(index, total, cols),
{
    let i = index as int;
    let n = total as int;
    let c = cols as int;
    assert(index as i32 as int == i);
    assert(total as i32 as int == n);
    vstd::arithmetic::div_mod::lemma_div_is_ordered_by_denominator(i, 1, c);
    vstd::arithmetic::div_mod::lemma_div_is_ordered_by_denominator(n, 1, c);
    vstd::arithmetic::div_mod::lemma_div_pos_is_pos(i, c);
    vstd::arithmetic::div_mod::lemma_div_pos_is_pos(n, c);
    vstd::arithmetic::div_mod::lemma_mod_bound(i, c);
    assert(i / 1 == i && n / 1 == n);
    assert(0 <= i % c < 1_000_000);
}

/// When the names of a toplevel are taken over, no other toplevel changes, and
/// of this one nothing but its names; without metadata they stay.
pub proof fn law_names_change_one_toplevel<T, P, S>(
    before: LookingGlass<T, P, S>,
    surface: SurfaceId,
    metadata: Option<SurfaceMetadata>,
    after: LookingGlass<T, P, S>,
    i: int,
    k: int,
)
    requires
        before.refreshed(surface, metadata, &after),
        0 <= i < before.toplevels@.len(),
        before.toplevels@[i].surface == surface,
        forall|j: int| 0 <= j < i ==> (#[trigger] before.toplevels@[j]).surface != surface,
        0 <= k < before.toplevels@.len(),
    ensures
        after.toplevels@.len() == before.toplevels@.len(),
        k != i ==> after.toplevels@[k] == before.toplevels@[k],
        after.toplevels@[i].surface == surface,
        after.toplevels@[i].lifecycle == before.toplevels@[i].lifecycle,
        after.toplevels@[i].visual_id == before.toplevels@[i].visual_id,
        after.toplevels@[i].size == before.toplevels@[i].size,
        metadata is None ==> after.toplevels@[i] == before.toplevels@[i],
        metadata matches Some(m) ==> {
            &&& m.title matches Some(t) ==> after.toplevels@[i].title@ == t@
            &&& m.title is None ==> after.toplevels@[i].title@.len() == 0
            &&& m.app_id matches Some(t) ==> after.toplevels@[i].app_id@ == t@
            &&& m.app_id is None ==> after.toplevels@[i].app_id@.len() == 0
        },
        after.scene == before.scene && after.camera == before.camera && after.producers
            == before.producers && after.spatial_mode == before.spatial_mode,
{
    law_toplevel_of_a_surface(before.toplevels@, surface, i);
}

/// Cleaning up keeps the order: it goes through the toplevels one by one.
pub proof fn law_cleanup_goes_one_by_one(
    toplevels: Seq<ToplevelInfo>,
    alive: Seq<bool>,
    last: ToplevelInfo,
)
    requires
        alive.len() > toplevels.len(),
    ensures
        living(Seq::empty(), alive) == Seq::<ToplevelInfo>::empty(),
        alive[toplevels.len() as int] ==> living(toplevels.push(last), alive) == living(
            toplevels,
            alive,
        ).push(last),
        !alive[toplevels.len() as int] ==> living(toplevels.push(last), alive) == living(
            toplevels,
            alive,
        ),
{
    assert(toplevels.push(last).drop_last() =~= toplevels);
}

/// Damage in pixels of the buffer always fits; damage of the surface fits if
/// each of its numbers, times the scale, fits 32 bits.
pub proof fn law_damage_fits_by_numbers(r: Rect, scale: int)
    ensures
        Damage::Buffer(r).scales(scale),
        Damage::Surface(r).scales(scale) <==> {
            &&& -0x8000_0000 <= r.x * scale <= 0x7fff_ffff
            &&& -0x8000_0000 <= r.y * scale <= 0x7fff_ffff
            &&& -0x8000_0000 <= r.w * scale <= 0x7fff_ffff
            &&& -0x8000_0000 <= r.h * scale <= 0x7fff_ffff
        },
{
}

} // verus!
