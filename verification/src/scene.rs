//! The scene: what is shown, in which stacking order, and which visual is
//! selected or holds the input focus.

use crate::geometry::{Quaternion, Rect, Vector3};
use crate::scalar::{lemma_units_of_pattern, Scalar};
use vstd::arithmetic::power2::{lemma2_to64, lemma2_to64_rest, pow2};
use vstd::prelude::*;

verus! {

/// Bit pattern of one.
pub const ONE_BITS: u32 = 0x3f80_0000;

/// Bit pattern of one half, the half extent of a visual in its own frame.
pub const HALF_BITS: u32 = 0x3f00_0000;

/// Bit pattern of 1e-8: a ray whose slope towards a visual is smaller runs
/// along its plane.
pub const PARALLEL_BITS: u32 = 0x322b_cc77;

/// Bit pattern of 1e-6: a rotation axis that is shorter stands for no rotation.
pub const NO_AXIS_BITS: u32 = 0x3586_37bd;

/// The identity of a visual.
#[derive(Debug, Clone, Copy, PartialEq, Eq, Hash, Structural)]
pub struct VisualId(pub u64);

/// Where fresh identities come from. A source cannot be copied, so that one
/// source gives each identity once.
#[derive(Debug, PartialEq, Eq, Structural)]
pub struct VisualIds {
    pub next: u64,
}

impl VisualIds {
    /// A source whose first identity is one.
    pub fn new() -> (ids: VisualIds)
        ensures
            ids.next == 1,
    {
        VisualIds { next: 1 }
    }
}

/// The number after this one; after the last comes zero.
pub open spec fn successor(next: u64) -> u64 {
    if next == u64::MAX {
        0
    } else {
        (next + 1) as u64
    }
}

impl VisualId {
    /// Takes the next identity; the counter wraps around at the end of its
    /// range.
    pub fn next(ids: &mut VisualIds) -> (id: VisualId)
        ensures
            id.0 == old(ids).next,
            final(ids).next == successor(old(ids).next),
            final(ids).next == (old(ids).next + 1) % (u64::MAX + 1),
    {
        let id = VisualId(ids.next);
        ids.next = ids.next.wrapping_add(1);
        id
    }
}

/// Position, rotation and scale of a visual.
#[derive(Debug, Clone, Copy, PartialEq)]
pub struct Transform3D {
    pub position: Vector3,
    pub rotation: Quaternion,
    pub scale: Vector3,
}

impl Transform3D {
    /// At the origin, not rotated, not scaled.
    pub open spec fn unit() -> Transform3D {
        let zero = Scalar { bits: 0 };
        let one = Scalar { bits: ONE_BITS };
        Transform3D {
            position: Vector3 { x: zero, y: zero, z: zero },
            rotation: Quaternion { s: one, v: Vector3 { x: zero, y: zero, z: zero } },
            scale: Vector3 { x: one, y: one, z: one },
        }
    }

    /// The transform that leaves everything where it is.
    pub fn identity() -> (t: Transform3D)
        ensures
            t == Transform3D::unit(),
    {
        let zero = Scalar::from_bits(0);
        let one = Scalar::from_bits(ONE_BITS);
        Transform3D {
            position: Vector3 { x: zero, y: zero, z: zero },
            rotation: Quaternion { s: one, v: Vector3 { x: zero, y: zero, z: zero } },
            scale: Vector3 { x: one, y: one, z: one },
        }
    }

    /// The angle of the rotation, given the length of the rotation's vector
    /// part and twice the arc cosine of its scalar part: zero for a rotation
    /// without an axis.
    pub fn rotation_angle(axis_length: Scalar, angle: Scalar) -> (r: Scalar)
        ensures
            r == if axis_length.lt(Scalar { bits: NO_AXIS_BITS }) {
                Scalar { bits: 0 }
            } else {
                angle
            },
    {
        if axis_length.less_than(Scalar::from_bits(NO_AXIS_BITS)) {
            Scalar::from_bits(0)
        } else {
            angle
        }
    }
}

/// What a visual shows: the texture of a Wayland surface, or one that came
/// from elsewhere.
#[derive(Debug, Clone)]
pub enum VisualContent<T> {
    WaylandSurface(T),
    ExternalTexture(T),
}

impl<T> VisualContent<T> {
    /// The texture, whichever source it has.
    pub open spec fn held(self) -> T {
        match self {
            VisualContent::WaylandSurface(t) => t,
            VisualContent::ExternalTexture(t) => t,
        }
    }

    /// The same kind of content with another texture.
    pub open spec fn holding(self, texture: T) -> VisualContent<T> {
        match self {
            VisualContent::WaylandSurface(_) => VisualContent::WaylandSurface(texture),
            VisualContent::ExternalTexture(_) => VisualContent::ExternalTexture(texture),
        }
    }
}

/// Whether the source of a visual's content is still there.
#[derive(Debug, Clone, Copy, PartialEq, Eq, Structural)]
pub enum ContentState {
    Ready,
    Disconnected,
}

/// How a visual is presented.
#[derive(Debug, Clone, Copy, PartialEq, Eq, Structural)]
pub enum WindowState {
    Normal,
    Minimized,
    Maximized,
}

/// One rectangle of content in the scene.
#[derive(Debug, Clone)]
pub struct Visual<T> {
    pub id: VisualId,
    pub content: VisualContent<T>,
    pub geometry: Rect,
    pub transform: Transform3D,
    pub selected: bool,
    pub content_state: ContentState,
    pub window_state: WindowState,
}

impl<T> Visual<T> {
    /// A visual at the origin that is not selected.
    pub open spec fn fresh(id: VisualId, content: VisualContent<T>, geometry: Rect) -> Visual<T> {
        Visual {
            id,
            content,
            geometry,
            transform: Transform3D::unit(),
            selected: false,
            content_state: ContentState::Ready,
            window_state: WindowState::Normal,
        }
    }

    /// Creates a visual at the origin that is not selected.
    pub fn new(id: VisualId, content: VisualContent<T>, geometry: Rect) -> (v: Visual<T>)
        ensures
            v == Visual::fresh(id, content, geometry),
    {
        Visual {
            id,
            content,
            geometry,
            transform: Transform3D::identity(),
            selected: false,
            content_state: ContentState::Ready,
            window_state: WindowState::Normal,
        }
    }

    /// The texture that the visual shows.
    pub fn texture(&self) -> (r: Option<&T>)
        ensures
            r == Some(&self.content.held()),
    {
        match &self.content {
            VisualContent::WaylandSurface(t) => Some(t),
            VisualContent::ExternalTexture(t) => Some(t),
        }
    }

    /// The texture that the visual shows, to be replaced.
    pub fn texture_mut(&mut self) -> (r: Option<&mut T>)
        ensures
            r is Some,
            *(r->0) == old(self).content.held(),
            *final(self) == (Visual {
                content: old(self).content.holding(*final(r->0)),
                ..*old(self)
            }),
    {
        match &mut self.content {
            VisualContent::WaylandSurface(t) => Some(t),
            VisualContent::ExternalTexture(t) => Some(t),
        }
    }
}

/// Position `i` holds the first visual with this identity.
pub open spec fn is_first<T>(visuals: Seq<Visual<T>>, i: int, id: VisualId) -> bool {
    &&& 0 <= i < visuals.len()
    &&& visuals[i].id == id
    &&& forall|j: int| 0 <= j < i ==> (#[trigger] visuals[j]).id != id
}

/// Some visual has this identity.
pub open spec fn has_visual<T>(visuals: Seq<Visual<T>>, id: VisualId) -> bool {
    exists|i: int| is_first(visuals, i, id)
}

/// Where the first visual with this identity stands.
pub open spec fn first_with_id<T>(visuals: Seq<Visual<T>>, id: VisualId) -> int {
    choose|i: int| is_first(visuals, i, id)
}

/// No two visuals share an identity.
pub open spec fn distinct_ids<T>(visuals: Seq<Visual<T>>) -> bool {
    forall|i: int, j: int|
        0 <= i < j < visuals.len() ==> (#[trigger] visuals[i]).id != (#[trigger] visuals[j]).id
}

/// Whether a visual has another identity.
pub open spec fn other_than<T>(id: VisualId) -> spec_fn(Visual<T>) -> bool {
    |v: Visual<T>| v.id != id
}

/// The visuals with the selection mark of the one with this identity, if there
/// is one, set or cleared.
pub open spec fn marked<T>(
    visuals: Seq<Visual<T>>,
    id: Option<VisualId>,
    selected: bool,
) -> Seq<Visual<T>> {
    match id {
        Some(x) if has_visual(visuals, x) => {
            let i = first_with_id(visuals, x);
            visuals.update(i, Visual { selected, ..visuals[i] })
        },
        _ => visuals,
    }
}

/// The visuals with the one that has this identity, if there is one, changed
/// by `change`.
pub open spec fn changed<T>(
    visuals: Seq<Visual<T>>,
    id: VisualId,
    change: spec_fn(Visual<T>) -> Visual<T>,
) -> Seq<Visual<T>> {
    if has_visual(visuals, id) {
        let i = first_with_id(visuals, id);
        visuals.update(i, change(visuals[i]))
    } else {
        visuals
    }
}

/// The visuals placed one after the other where `places` puts them.
pub open spec fn rearranged<T>(
    visuals: Seq<Visual<T>>,
    places: Seq<(VisualId, Transform3D)>,
) -> Seq<Visual<T>>
    decreases places.len(),
{
    if places.len() == 0 {
        visuals
    } else {
        changed(
            rearranged(visuals, places.drop_last()),
            places.last().0,
            |v: Visual<T>| Visual { transform: places.last().1, ..v },
        )
    }
}

/// The visuals with the one that has this identity moved in front of all
/// others.
pub open spec fn to_front<T>(visuals: Seq<Visual<T>>, id: VisualId) -> Seq<Visual<T>> {
    if has_visual(visuals, id) {
        let i = first_with_id(visuals, id);
        visuals.remove(i).push(visuals[i])
    } else {
        visuals
    }
}

/// The visuals with the one that has this identity moved behind all others.
pub open spec fn to_back<T>(visuals: Seq<Visual<T>>, id: VisualId) -> Seq<Visual<T>> {
    if has_visual(visuals, id) {
        let i = first_with_id(visuals, id);
        visuals.remove(i).insert(0, visuals[i])
    } else {
        visuals
    }
}

/// The visuals at `i` and `j` exchanged.
pub open spec fn exchanged<T>(visuals: Seq<Visual<T>>, i: int, j: int) -> Seq<Visual<T>> {
    visuals.update(i, visuals[j]).update(j, visuals[i])
}

/// The visuals with the one that has this identity moved one step to the
/// front, unless it is in front already.
pub open spec fn raised<T>(visuals: Seq<Visual<T>>, id: VisualId) -> Seq<Visual<T>> {
    let i = first_with_id(visuals, id);
    if has_visual(visuals, id) && i + 1 < visuals.len() {
        exchanged(visuals, i, i + 1)
    } else {
        visuals
    }
}

/// The visuals with the one that has this identity moved one step to the back,
/// unless it is furthest back already.
pub open spec fn lowered<T>(visuals: Seq<Visual<T>>, id: VisualId) -> Seq<Visual<T>> {
    let i = first_with_id(visuals, id);
    if has_visual(visuals, id) && i > 0 {
        exchanged(visuals, i - 1, i)
    } else {
        visuals
    }
}

/// All visuals, from the one furthest back to the one in front, and which of
/// them is selected and which one holds the input focus.
#[derive(Debug)]
pub struct Scene<T> {
    pub visuals: Vec<Visual<T>>,
    pub selected_id: Option<VisualId>,
    pub focused_id: Option<VisualId>,
}

impl<T> Default for Scene<T> {
    fn default() -> (scene: Scene<T>)
        ensures
            scene.visuals@ == Seq::<Visual<T>>::empty(),
            scene.selected_id == None::<VisualId>,
            scene.focused_id == None::<VisualId>,
    {
        Scene { visuals: Vec::new(), selected_id: None, focused_id: None }
    }
}

impl<T> Scene<T> {
    /// Identities are distinct, and no visual but the selected one is marked.
    pub open spec fn well_formed(&self) -> bool {
        &&& distinct_ids(self.visuals@)
        &&& forall|i: int|
            0 <= i < self.visuals@.len() && (#[trigger] self.visuals@[i]).selected
                ==> self.selected_id == Some(self.visuals@[i].id)
    }

    /// Selection and focus are the same in both.
    pub open spec fn same_targets(&self, other: &Scene<T>) -> bool {
        self.selected_id == other.selected_id && self.focused_id == other.focused_id
    }

    /// The visuals when `id` is selected: the mark has moved from the one that
    /// was selected to that one, unless it was selected already.
    pub open spec fn with_selection(&self, id: Option<VisualId>) -> Seq<Visual<T>> {
        if self.selected_id == id {
            self.visuals@
        } else {
            marked(marked(self.visuals@, self.selected_id, false), id, true)
        }
    }

    /// The index of the first visual with this identity.
    pub fn position(&self, id: VisualId) -> (r: Option<usize>)
        ensures
            r is Some <==> has_visual(self.visuals@, id),
            r matches Some(i) ==> is_first(self.visuals@, i as int, id) && i == first_with_id(
                self.visuals@,
                id,
            ),
    {
        let mut i: usize = 0;
        while i < self.visuals.len()
            invariant
                i <= self.visuals@.len(),
                forall|j: int| 0 <= j < i ==> (#[trigger] self.visuals@[j]).id != id,
            decreases self.visuals@.len() - i,
        {
            if self.visuals[i].id == id {
                assert(is_first(self.visuals@, i as int, id));
                return Some(i);
            }
            i += 1;
        }
        None
    }

    /// Adds a visual in front of all others.
    pub fn add(&mut self, visual: Visual<T>)
        ensures
            final(self).visuals@ == old(self).visuals@.push(visual),
            final(self).same_targets(old(self)),
            old(self).well_formed() && !has_visual(old(self).visuals@, visual.id)
                && !visual.selected ==> final(self).well_formed(),
    {
        proof {
            if !has_visual(self.visuals@, visual.id) {
                lemma_absent(self.visuals@, visual.id);
            }
        }
        self.visuals.push(visual);
    }

    /// Removes every visual with this identity, and the selection if it was
    /// the selected one.
    pub fn remove(&mut self, id: VisualId)
        ensures
            final(self).visuals@ == old(self).visuals@.filter(other_than(id)),
            final(self).selected_id == if old(self).selected_id == Some(id) {
                None
            } else {
                old(self).selected_id
            },
            final(self).focused_id == old(self).focused_id,
            old(self).well_formed() ==> final(self).well_formed(),
    {
        let ghost before = self.visuals@;
        let ghost p = other_than::<T>(id);
        let ghost mut seen: int = 0;
        let mut i: usize = 0;
        proof {
            assert(before.take(0).filter(p) =~= Seq::empty()) by {
                reveal(Seq::filter);
            }
            assert(before.skip(0) =~= before);
        }
        while i < self.visuals.len()
            invariant
                0 <= seen <= before.len(),
                p == other_than::<T>(id),
                before == old(self).visuals@,
                i == before.take(seen).filter(p).len(),
                self.visuals@ == before.take(seen).filter(p) + before.skip(seen),
                self.same_targets(old(self)),
            decreases self.visuals@.len() - i,
        {
            proof {
                reveal(Seq::filter);
                assert(self.visuals@[i as int] == before[seen]);
                assert(before.take(seen + 1).drop_last() =~= before.take(seen));
                assert(before.take(seen + 1).last() == before[seen]);
            }
            if self.visuals[i].id == id {
                self.visuals.remove(i);
            } else {
                i += 1;
            }
            proof {
                seen = seen + 1;
                assert(self.visuals@ =~= before.take(seen).filter(p) + before.skip(seen));
            }
        }
        proof {
            assert(seen == before.len());
            assert(before.take(seen) =~= before);
            assert(self.visuals@ =~= before.filter(p));
        }
        if self.selected_id == Some(id) {
            self.selected_id = None;
        }
        proof {
            if old(self).well_formed() {
                lemma_filter_keeps(before, id);
            }
        }
    }

    /// The first visual with this identity, to be changed.
    pub fn get_mut(&mut self, id: VisualId) -> (r: Option<&mut Visual<T>>)
        ensures
            r is Some <==> has_visual(old(self).visuals@, id),
            r is None ==> final(self).visuals@ == old(self).visuals@,
            r is Some ==> {
                let i = first_with_id(old(self).visuals@, id);
                &&& *(r->0) == old(self).visuals@[i]
                &&& final(self).visuals@ == old(self).visuals@.update(i, *final(r->0))
            },
            final(self).same_targets(old(self)),
    {
        match self.position(id) {
            Some(i) => Some(&mut self.visuals[i]),
            None => None,
        }
    }

    /// Replaces the texture of a visual. False if there is no such visual.
    pub fn replace_texture(&mut self, id: VisualId, texture: T) -> (r: bool)
        ensures
            r == has_visual(old(self).visuals@, id),
            final(self).visuals@ == changed(
                old(self).visuals@,
                id,
                |v: Visual<T>| Visual { content: v.content.holding(texture), ..v },
            ),
            final(self).same_targets(old(self)),
            old(self).well_formed() ==> final(self).well_formed(),
    {
        match self.get_mut(id) {
            Some(v) => {
                if let Some(held) = v.texture_mut() {
                    *held = texture;
                }
                true
            },
            None => false,
        }
    }

    /// The visuals, from the one furthest back to the one in front.
    pub fn iter(&self) -> (it: core::slice::Iter<'_, Visual<T>>)
        ensures
            vstd::std_specs::iter::IteratorSpec::remaining(&it) == self.visuals@.as_ref(),
    {
        self.visuals.iter()
    }

    /// Selects a visual, or none, and takes the mark off the one that was
    /// selected before.
    pub fn select(&mut self, id: Option<VisualId>)
        ensures
            final(self).selected_id == id,
            final(self).focused_id == old(self).focused_id,
            final(self).visuals@ == old(self).with_selection(id),
            old(self).well_formed() ==> final(self).well_formed(),
    {
        if self.selected_id == id {
            return;
        }
        if let Some(previous) = self.selected_id {
            if let Some(v) = self.get_mut(previous) {
                v.selected = false;
            }
        }
        self.selected_id = id;
        if let Some(new) = id {
            if let Some(v) = self.get_mut(new) {
                v.selected = true;
            }
        }
        proof {
            if old(self).well_formed() {
                lemma_marking(old(self).visuals@, old(self).selected_id, id);
            }
        }
    }
}

/// An identity that no visual has differs from each visual's.
pub proof fn lemma_absent<T>(visuals: Seq<Visual<T>>, id: VisualId)
    requires
        !has_visual(visuals, id),
    ensures
        forall|i: int| 0 <= i < visuals.len() ==> (#[trigger] visuals[i]).id != id,
{
    assert forall|i: int| 0 <= i < visuals.len() implies (#[trigger] visuals[i]).id != id by {
        if visuals[i].id == id {
            lemma_present(visuals, i, id);
        }
    }
}

/// Where some visual has the identity, there is a first one.
pub proof fn lemma_present<T>(visuals: Seq<Visual<T>>, i: int, id: VisualId)
    requires
        0 <= i < visuals.len(),
        visuals[i].id == id,
    ensures
        has_visual(visuals, id),
        is_first(visuals, first_with_id(visuals, id), id),
        first_with_id(visuals, id) <= i,
    decreases i,
{
    if exists|j: int| 0 <= j < i && (#[trigger] visuals[j]).id == id {
        let j = choose|j: int| 0 <= j < i && (#[trigger] visuals[j]).id == id;
        lemma_present(visuals, j, id);
    } else {
        assert(is_first(visuals, i, id));
    }
}

/// Moving the mark from the visual that was selected to the one that is
/// selected now leaves at most that one marked.
proof fn lemma_marking<T>(
    visuals: Seq<Visual<T>>,
    previous: Option<VisualId>,
    id: Option<VisualId>,
)
    requires
        distinct_ids(visuals),
        forall|i: int|
            0 <= i < visuals.len() && (#[trigger] visuals[i]).selected ==> previous == Some(
                visuals[i].id,
            ),
    ensures
        ({
            let after = marked(marked(visuals, previous, false), id, true);
            &&& after.len() == visuals.len()
            &&& distinct_ids(after)
            &&& forall|i: int|
                0 <= i < after.len() ==> (#[trigger] after[i]).id == visuals[i].id
                    && after[i].selected == (id == Some(after[i].id))
        }),
{
    let cleared = marked(visuals, previous, false);
    assert forall|i: int| 0 <= i < cleared.len() implies !(#[trigger] cleared[i]).selected
        && cleared[i].id == visuals[i].id by {
        if visuals[i].selected {
            lemma_present(visuals, i, visuals[i].id);
        }
    }
    let after = marked(cleared, id, true);
    assert forall|i: int| 0 <= i < after.len() implies (#[trigger] after[i]).id == visuals[i].id
        && after[i].selected == (id == Some(after[i].id)) by {
        if id == Some(cleared[i].id) {
            lemma_present(cleared, i, cleared[i].id);
            assert(cleared[first_with_id(cleared, cleared[i].id)].id == cleared[i].id);
        }
    }
}

/// Dropping the visuals with one identity keeps the others, distinct and in
/// order, and no visual with that identity is left.
pub proof fn lemma_filter_keeps<T>(visuals: Seq<Visual<T>>, id: VisualId)
    ensures
        forall|i: int|
            0 <= i < visuals.filter(other_than(id)).len() ==> visuals.contains(
                #[trigger] visuals.filter(other_than(id))[i],
            ) && visuals.filter(other_than(id))[i].id != id,
        forall|i: int|
            0 <= i < visuals.len() && (#[trigger] visuals[i]).id != id ==> visuals.filter(
                other_than(id),
            ).contains(visuals[i]),
        distinct_ids(visuals) ==> distinct_ids(visuals.filter(other_than(id))),
    decreases visuals.len(),
{
    reveal(Seq::filter);
    let p = other_than::<T>(id);
    let kept = visuals.filter(p);
    if visuals.len() > 0 {
        let front = visuals.drop_last();
        lemma_filter_keeps(front, id);
        let shorter = front.filter(p);
        assert forall|i: int| 0 <= i < kept.len() implies visuals.contains(#[trigger] kept[i])
            && kept[i].id != id by {
            if i < shorter.len() {
                assert(kept[i] == shorter[i]);
                let j = choose|j: int| 0 <= j < front.len() && front[j] == shorter[i];
                assert(visuals[j] == kept[i]);
            } else {
                assert(visuals[visuals.len() - 1] == kept[i]);
            }
        }
        assert forall|i: int| 0 <= i < visuals.len() && (#[trigger] visuals[i]).id
            != id implies kept.contains(visuals[i]) by {
            if i < front.len() {
                assert(front[i] == visuals[i]);
                let j = choose|j: int| 0 <= j < shorter.len() && shorter[j] == front[i];
                assert(kept[j] == visuals[i]);
            } else {
                assert(kept[kept.len() - 1] == visuals[i]);
            }
        }
        if distinct_ids(visuals) {
            assert(distinct_ids(front));
            assert forall|i: int, j: int| 0 <= i < j < kept.len() implies (#[trigger] kept[i]).id
                != (#[trigger] kept[j]).id by {
                assert(kept[i] == shorter[i]);
                let a = choose|a: int| 0 <= a < front.len() && front[a] == shorter[i];
                assert(visuals[a] == kept[i]);
                if j >= shorter.len() {
                    assert(kept[j] == visuals[visuals.len() - 1]);
                } else {
                    assert(kept[j] == shorter[j]);
                }
            }
        }
    }
}

impl<T> Scene<T> {
    /// Gives the input focus to a visual, or to none.
    pub fn focus(&mut self, id: Option<VisualId>)
        ensures
            final(self).focused_id == id,
            final(self).selected_id == old(self).selected_id,
            final(self).visuals@ == old(self).visuals@,
    {
        self.focused_id = id;
    }

    /// Notes that the source of a visual's content is gone. The visual loses
    /// the focus if it held it; the selection stays.
    pub fn disconnect(&mut self, id: VisualId)
        ensures
            final(self).visuals@ == changed(
                old(self).visuals@,
                id,
                |v: Visual<T>| Visual { content_state: ContentState::Disconnected, ..v },
            ),
            final(self).focused_id == if old(self).focused_id == Some(id) {
                None
            } else {
                old(self).focused_id
            },
            final(self).selected_id == old(self).selected_id,
            old(self).well_formed() ==> final(self).well_formed(),
    {
        if let Some(v) = self.get_mut(id) {
            v.content_state = ContentState::Disconnected;
        }
        if self.focused_id == Some(id) {
            self.focused_id = None;
        }
    }

    /// Whether there is such a visual and its content has a source.
    pub fn is_active(&self, id: VisualId) -> (r: bool)
        ensures
            r == (has_visual(self.visuals@, id) && self.visuals@[first_with_id(
                self.visuals@,
                id,
            )].content_state == ContentState::Ready),
    {
        match self.position(id) {
            Some(i) => self.visuals[i].content_state == ContentState::Ready,
            None => false,
        }
    }

    /// Moves a visual in front of all others. False if there is no such visual.
    pub fn bring_to_front(&mut self, id: VisualId) -> (r: bool)
        ensures
            r == has_visual(old(self).visuals@, id),
            final(self).visuals@ == to_front(old(self).visuals@, id),
            final(self).same_targets(old(self)),
            old(self).well_formed() ==> final(self).well_formed(),
    {
        match self.position(id) {
            Some(i) => {
                let v = self.visuals.remove(i);
                self.visuals.push(v);
                true
            },
            None => false,
        }
    }

    /// Moves a visual behind all others. False if there is no such visual.
    pub fn send_to_back(&mut self, id: VisualId) -> (r: bool)
        ensures
            r == has_visual(old(self).visuals@, id),
            final(self).visuals@ == to_back(old(self).visuals@, id),
            final(self).same_targets(old(self)),
            old(self).well_formed() ==> final(self).well_formed(),
    {
        match self.position(id) {
            Some(i) => {
                let v = self.visuals.remove(i);
                self.visuals.insert(0, v);
                true
            },
            None => false,
        }
    }

    /// Moves a visual one step to the front. False if there is no such visual.
    pub fn raise(&mut self, id: VisualId) -> (r: bool)
        ensures
            r == has_visual(old(self).visuals@, id),
            final(self).visuals@ == raised(old(self).visuals@, id),
            final(self).same_targets(old(self)),
            old(self).well_formed() ==> final(self).well_formed(),
    {
        match self.position(id) {
            Some(i) => {
                if i < self.visuals.len() - 1 {
                    let v = self.visuals.remove(i);
                    self.visuals.insert(i + 1, v);
                }
                proof {
                    assert(self.visuals@ =~= raised(old(self).visuals@, id));
                }
                true
            },
            None => false,
        }
    }

    /// Moves a visual one step to the back. False if there is no such visual.
    pub fn lower(&mut self, id: VisualId) -> (r: bool)
        ensures
            r == has_visual(old(self).visuals@, id),
            final(self).visuals@ == lowered(old(self).visuals@, id),
            final(self).same_targets(old(self)),
            old(self).well_formed() ==> final(self).well_formed(),
    {
        match self.position(id) {
            Some(i) => {
                if i > 0 {
                    let v = self.visuals.remove(i);
                    self.visuals.insert(i - 1, v);
                }
                proof {
                    assert(self.visuals@ =~= lowered(old(self).visuals@, id));
                }
                true
            },
            None => false,
        }
    }

    /// Puts a visual back to the origin, not rotated and not scaled. False if
    /// there is no such visual.
    pub fn reset_transform(&mut self, id: VisualId) -> (r: bool)
        ensures
            r == has_visual(old(self).visuals@, id),
            final(self).visuals@ == changed(
                old(self).visuals@,
                id,
                |v: Visual<T>| Visual { transform: Transform3D::unit(), ..v },
            ),
            final(self).same_targets(old(self)),
            old(self).well_formed() ==> final(self).well_formed(),
    {
        match self.get_mut(id) {
            Some(v) => {
                v.transform = Transform3D::identity();
                true
            },
            None => false,
        }
    }

    /// Places visuals, one after the other. Those that are not in the scene are
    /// passed over.
    pub fn arrange(&mut self, places: &Vec<(VisualId, Transform3D)>)
        ensures
            final(self).visuals@ == rearranged(old(self).visuals@, places@),
            final(self).same_targets(old(self)),
            old(self).well_formed() ==> final(self).well_formed(),
    {
        let mut i: usize = 0;
        proof {
            assert(places@.take(0) =~= Seq::empty());
        }
        while i < places.len()
            invariant
                i <= places@.len(),
                self.visuals@ == rearranged(old(self).visuals@, places@.take(i as int)),
                self.same_targets(old(self)),
                old(self).well_formed() ==> self.well_formed(),
            decreases places@.len() - i,
        {
            let (id, transform) = places[i];
            if let Some(v) = self.get_mut(id) {
                v.transform = transform;
            }
            proof {
                assert(places@.take(i + 1).drop_last() =~= places@.take(i as int));
                assert(places@.take(i + 1).last() == places@[i as int]);
            }
            i += 1;
        }
        proof {
            assert(places@.take(i as int) =~= places@);
        }
    }

    /// Presents a visual in the given way. False if there is no such visual.
    fn set_window_state(&mut self, id: VisualId, state: WindowState) -> (r: bool)
        ensures
            r == has_visual(old(self).visuals@, id),
            final(self).visuals@ == changed(
                old(self).visuals@,
                id,
                |v: Visual<T>| Visual { window_state: state, ..v },
            ),
            final(self).same_targets(old(self)),
            old(self).well_formed() ==> final(self).well_formed(),
    {
        match self.get_mut(id) {
            Some(v) => {
                v.window_state = state;
                true
            },
            None => false,
        }
    }

    /// Minimizes a visual. False if there is no such visual.
    pub fn minimize(&mut self, id: VisualId) -> (r: bool)
        ensures
            r == has_visual(old(self).visuals@, id),
            final(self).visuals@ == changed(
                old(self).visuals@,
                id,
                |v: Visual<T>| Visual { window_state: WindowState::Minimized, ..v },
            ),
            final(self).same_targets(old(self)),
            old(self).well_formed() ==> final(self).well_formed(),
    {
        self.set_window_state(id, WindowState::Minimized)
    }

    /// Maximizes a visual. False if there is no such visual.
    pub fn maximize(&mut self, id: VisualId) -> (r: bool)
        ensures
            r == has_visual(old(self).visuals@, id),
            final(self).visuals@ == changed(
                old(self).visuals@,
                id,
                |v: Visual<T>| Visual { window_state: WindowState::Maximized, ..v },
            ),
            final(self).same_targets(old(self)),
            old(self).well_formed() ==> final(self).well_formed(),
    {
        self.set_window_state(id, WindowState::Maximized)
    }

    /// Takes a visual back to its normal presentation. False if there is no
    /// such visual.
    pub fn restore(&mut self, id: VisualId) -> (r: bool)
        ensures
            r == has_visual(old(self).visuals@, id),
            final(self).visuals@ == changed(
                old(self).visuals@,
                id,
                |v: Visual<T>| Visual { window_state: WindowState::Normal, ..v },
            ),
            final(self).same_targets(old(self)),
            old(self).well_formed() ==> final(self).well_formed(),
    {
        self.set_window_state(id, WindowState::Normal)
    }
}

/// Selecting a visual leaves exactly the visuals with that identity marked,
/// whatever was marked before.
pub proof fn law_select_marks_only_the_selected<T>(
    scene: Scene<T>,
    id: Option<VisualId>,
    i: int,
)
    requires
        scene.well_formed(),
        scene.selected_id != id,
        0 <= i < scene.visuals@.len(),
    ensures
        ({
            let after = marked(marked(scene.visuals@, scene.selected_id, false), id, true);
            &&& after.len() == scene.visuals@.len()
            &&& after[i] == Visual {
                selected: id == Some(scene.visuals@[i].id),
                ..scene.visuals@[i]
            }
        }),
{
    lemma_marking(scene.visuals@, scene.selected_id, id);
}

/// Removing an identity leaves no visual with it, and every visual with
/// another identity.
pub proof fn law_remove_takes_only_that_identity<T>(
    visuals: Seq<Visual<T>>,
    id: VisualId,
    other: VisualId,
)
    requires
        other != id,
    ensures
        !has_visual(visuals.filter(other_than(id)), id),
        has_visual(visuals.filter(other_than(id)), other) == has_visual(visuals, other),
{
    lemma_filter_keeps(visuals, id);
    let kept = visuals.filter(other_than(id));
    if has_visual(kept, other) {
        let i = first_with_id(kept, other);
        let j = choose|j: int| 0 <= j < visuals.len() && visuals[j] == kept[i];
        lemma_present(visuals, j, other);
    }
    if has_visual(visuals, other) {
        let i = first_with_id(visuals, other);
        let j = choose|j: int| 0 <= j < kept.len() && kept[j] == visuals[i];
        lemma_present(kept, j, other);
    }
}

/// Removing a visual that was just added, under an identity that was free,
/// gives back the visuals as they were.
pub proof fn law_remove_undoes_add<T>(visuals: Seq<Visual<T>>, visual: Visual<T>)
    requires
        !has_visual(visuals, visual.id),
    ensures
        visuals.push(visual).filter(other_than(visual.id)) == visuals,
{
    lemma_absent(visuals, visual.id);
    reveal(Seq::filter);
    assert(visuals.push(visual).drop_last() =~= visuals);
    lemma_nothing_to_drop(visuals, visual.id);
}

/// Dropping an identity that no visual has changes nothing.
proof fn lemma_nothing_to_drop<T>(visuals: Seq<Visual<T>>, id: VisualId)
    requires
        forall|i: int| 0 <= i < visuals.len() ==> (#[trigger] visuals[i]).id != id,
    ensures
        visuals.filter(other_than(id)) == visuals,
    decreases visuals.len(),
{
    reveal(Seq::filter);
    if visuals.len() > 0 {
        lemma_nothing_to_drop(visuals.drop_last(), id);
        assert(visuals.drop_last().push(visuals.last()) =~= visuals);
    }
}

/// Bringing a visual to the front loses none and keeps the order of the
/// others; the visual ends up in front.
pub proof fn law_front_keeps_the_others<T>(visuals: Seq<Visual<T>>, id: VisualId)
    requires
        has_visual(visuals, id),
    ensures
        to_front(visuals, id).to_multiset() == visuals.to_multiset(),
        to_front(visuals, id).last() == visuals[first_with_id(visuals, id)],
        to_front(visuals, id).drop_last() == visuals.remove(first_with_id(visuals, id)),
{
    let i = first_with_id(visuals, id);
    broadcast use vstd::seq_lib::group_to_multiset_ensures;
    assert(to_front(visuals, id).drop_last() =~= visuals.remove(i));
    lemma_moved_multiset(visuals, i);
}

/// Sending a visual to the back loses none and keeps the order of the others;
/// the visual ends up furthest back.
pub proof fn law_back_keeps_the_others<T>(visuals: Seq<Visual<T>>, id: VisualId)
    requires
        has_visual(visuals, id),
    ensures
        to_back(visuals, id).to_multiset() == visuals.to_multiset(),
        to_back(visuals, id).first() == visuals[first_with_id(visuals, id)],
        to_back(visuals, id).drop_first() == visuals.remove(first_with_id(visuals, id)),
{
    let i = first_with_id(visuals, id);
    broadcast use vstd::seq_lib::group_to_multiset_ensures;
    assert(to_back(visuals, id).drop_first() =~= visuals.remove(i));
    lemma_moved_multiset(visuals, i);
}

/// Taking an element out and putting it back anywhere keeps the multiset.
proof fn lemma_moved_multiset<A>(s: Seq<A>, i: int)
    requires
        0 <= i < s.len(),
    ensures
        s.remove(i).push(s[i]).to_multiset() == s.to_multiset(),
        s.remove(i).insert(0, s[i]).to_multiset() == s.to_multiset(),
{
    broadcast use vstd::seq_lib::group_to_multiset_ensures;
    assert(s.to_multiset().contains(s[i]));
    assert(s.to_multiset().remove(s[i]).insert(s[i]) =~= s.to_multiset());
}

/// Bringing a visual to the front a second time changes nothing.
pub proof fn law_front_is_idempotent<T>(visuals: Seq<Visual<T>>, id: VisualId)
    requires
        distinct_ids(visuals),
    ensures
        to_front(to_front(visuals, id), id) == to_front(visuals, id),
{
    if has_visual(visuals, id) {
        let moved = to_front(visuals, id);
        lemma_present(moved, moved.len() - 1, id);
        let i = first_with_id(visuals, id);
        assert forall|j: int| 0 <= j < moved.len() - 1 implies (#[trigger] moved[j]).id != id by {
            let k = if j < i { j } else { j + 1 };
            assert(moved[j] == visuals[k]);
            assert(visuals[i].id == id);
        }
        assert(to_front(moved, id) =~= moved);
    }
}

/// Lowering a visual that was just raised, and was not in front, gives back
/// the order as it was.
pub proof fn law_lower_undoes_raise<T>(visuals: Seq<Visual<T>>, id: VisualId)
    requires
        distinct_ids(visuals),
        has_visual(visuals, id),
        first_with_id(visuals, id) + 1 < visuals.len(),
    ensures
        lowered(raised(visuals, id), id) == visuals,
{
    let i = first_with_id(visuals, id);
    let up = raised(visuals, id);
    assert(up[i + 1].id == id);
    lemma_present(up, i + 1, id);
    assert(visuals[i].id == id && visuals[i + 1].id != id);
    assert(first_with_id(up, id) == i + 1);
    assert(lowered(up, id) =~= visuals);
}

/// Raising a visual that was just lowered, and was not furthest back, gives
/// back the order as it was.
pub proof fn law_raise_undoes_lower<T>(visuals: Seq<Visual<T>>, id: VisualId)
    requires
        distinct_ids(visuals),
        has_visual(visuals, id),
        first_with_id(visuals, id) > 0,
    ensures
        raised(lowered(visuals, id), id) == visuals,
{
    let i = first_with_id(visuals, id);
    let down = lowered(visuals, id);
    assert(down[i - 1].id == id);
    assert(is_first(down, i - 1, id)) by {
        assert(visuals[i].id == id);
        assert forall|j: int| 0 <= j < i - 1 implies (#[trigger] down[j]).id != id by {
            assert(down[j] == visuals[j]);
        }
    }
    lemma_present(down, i - 1, id);
    assert(raised(down, id) =~= visuals);
}

/// A visual whose source is gone is not active, and disconnecting it again
/// changes nothing.
pub proof fn law_disconnect_is_idempotent<T>(visuals: Seq<Visual<T>>, id: VisualId)
    ensures
        ({
            let gone = |v: Visual<T>| Visual { content_state: ContentState::Disconnected, ..v };
            let after = changed(visuals, id, gone);
            &&& has_visual(after, id) == has_visual(visuals, id)
            &&& has_visual(after, id) ==> after[first_with_id(after, id)].content_state
                == ContentState::Disconnected
            &&& changed(after, id, gone) == after
        }),
{
    let gone = |v: Visual<T>| Visual { content_state: ContentState::Disconnected, ..v };
    let after = changed(visuals, id, gone);
    if has_visual(visuals, id) {
        let i = first_with_id(visuals, id);
        assert(after[i].id == id);
        lemma_present(after, i, id);
        assert forall|j: int| 0 <= j < i implies (#[trigger] after[j]).id != id by {
            assert(after[j] == visuals[j]);
        }
        assert(first_with_id(after, id) == i);
        assert(changed(after, id, gone) =~= after);
    }
}

/// Placing visuals changes nothing of them but their transforms.
pub proof fn lemma_rearranged<T>(visuals: Seq<Visual<T>>, places: Seq<(VisualId, Transform3D)>)
    ensures
        rearranged(visuals, places).len() == visuals.len(),
        forall|k: int|
            0 <= k < visuals.len() ==> #[trigger] rearranged(visuals, places)[k] == (Visual {
                transform: rearranged(visuals, places)[k].transform,
                ..visuals[k]
            }),
    decreases places.len(),
{
    if places.len() > 0 {
        lemma_rearranged(visuals, places.drop_last());
        let before = rearranged(visuals, places.drop_last());
        let after = rearranged(visuals, places);
        assert forall|k: int| 0 <= k < visuals.len() implies #[trigger] after[k] == (Visual {
            transform: after[k].transform,
            ..visuals[k]
        }) by {
            assert(before[k] == (Visual { transform: before[k].transform, ..visuals[k] }));
        }
    }
}

/// Placing visuals leaves everything but their transforms, and what is not
/// mentioned stays where it is. Of several places for one visual the last one
/// counts.
pub proof fn law_arranging_moves_only_the_named<T>(
    visuals: Seq<Visual<T>>,
    places: Seq<(VisualId, Transform3D)>,
    k: int,
)
    requires
        distinct_ids(visuals),
        0 <= k < visuals.len(),
    ensures
        rearranged(visuals, places).len() == visuals.len(),
        rearranged(visuals, places)[k] == match last_place(places, visuals[k].id) {
            Some(transform) => Visual { transform, ..visuals[k] },
            None => visuals[k],
        },
    decreases places.len(),
{
    if places.len() > 0 {
        let before = rearranged(visuals, places.drop_last());
        let id = places.last().0;
        lemma_rearranged(visuals, places.drop_last());
        law_arranging_moves_only_the_named(visuals, places.drop_last(), k);
        if visuals[k].id == id {
            assert(before[k].id == id);
            lemma_present(before, k, id);
            let i = first_with_id(before, id);
            assert(before[i].id == visuals[i].id);
        }
    }
}

/// The last place that is given for a visual, if any is.
pub open spec fn last_place(places: Seq<(VisualId, Transform3D)>, id: VisualId) -> Option<
    Transform3D,
>
    decreases places.len(),
{
    if places.len() == 0 {
        None
    } else if places.last().0 == id {
        Some(places.last().1)
    } else {
        last_place(places.drop_last(), id)
    }
}

/// A source after it was asked for `n` identities.
pub open spec fn after_issuing(ids: VisualIds, n: nat) -> VisualIds
    decreases n,
{
    if n == 0 {
        ids
    } else {
        VisualIds { next: successor(after_issuing(ids, (n - 1) as nat).next) }
    }
}

/// The identity that a source gives after it was asked for `n` others.
pub open spec fn issued(ids: VisualIds, n: nat) -> VisualId {
    VisualId(after_issuing(ids, n).next)
}

/// As long as the counter does not run out, a source gives consecutive
/// numbers, so that of two identities the later one is greater.
pub proof fn law_identities_increase(ids: VisualIds, i: nat, j: nat)
    requires
        i < j,
        ids.next + j <= u64::MAX,
    ensures
        issued(ids, i).0 == ids.next + i,
        issued(ids, j).0 == ids.next + j,
        issued(ids, i).0 < issued(ids, j).0,
        issued(ids, i) != issued(ids, j),
{
    lemma_issued(ids, i);
    lemma_issued(ids, j);
}

/// A new source starts with one and, as long as the counter does not run out,
/// never gives zero.
pub proof fn law_identities_start_at_one(ids: VisualIds, n: nat)
    requires
        ids.next == 1,
        n < u64::MAX,
    ensures
        issued(ids, 0) == VisualId(1),
        issued(ids, n).0 == n + 1,
        issued(ids, n) != VisualId(0),
{
    lemma_issued(ids, n);
}

proof fn lemma_issued(ids: VisualIds, n: nat)
    requires
        ids.next + n <= u64::MAX,
    ensures
        issued(ids, n).0 == ids.next + n,
    decreases n,
{
    if n > 0 {
        lemma_issued(ids, (n - 1) as nat);
    }
}

/// The numbers that the bit patterns stand for, in units of two to the power
/// of -149: one, and one half; and the thresholds of 1e-8 and 1e-6, to within
/// half a unit in their last place.
pub proof fn law_scene_numbers()
    ensures
        (Scalar { bits: ONE_BITS }).units() == pow2(149),
        (Scalar { bits: HALF_BITS }).units() == pow2(148),
        (Scalar { bits: PARALLEL_BITS }).units() == 11258999 * pow2(99),
        (2 * 11258999 - 1) * 100_000_000 < pow2(51) < (2 * 11258999 + 1) * 100_000_000,
        (Scalar { bits: NO_AXIS_BITS }).units() == 8796093 * pow2(106),
        (2 * 8796093 - 1) * 1_000_000 < pow2(44) < (2 * 8796093 + 1) * 1_000_000,
{
    lemma2_to64();
    lemma2_to64_rest();
    lemma_units_of_pattern(Scalar { bits: ONE_BITS }, 1, 23);
    lemma_units_of_pattern(Scalar { bits: HALF_BITS }, 1, 23);
    lemma_units_of_pattern(Scalar { bits: PARALLEL_BITS }, 11258999, 0);
    lemma_units_of_pattern(Scalar { bits: NO_AXIS_BITS }, 8796093, 0);
}

/// Whether a visual is in the scene, and where the first of its identity
/// stands, by the identities alone.
pub proof fn law_first_of_an_identity<T>(visuals: Seq<Visual<T>>, id: VisualId, i: int)
    requires
        0 <= i < visuals.len(),
        visuals[i].id == id,
    ensures
        has_visual(visuals, id),
        0 <= first_with_id(visuals, id) <= i,
        visuals[first_with_id(visuals, id)].id == id,
        forall|j: int|
            0 <= j < first_with_id(visuals, id) ==> (#[trigger] visuals[j]).id != id,
{
    lemma_present(visuals, i, id);
}

/// An identity that no visual has is not in the scene.
pub proof fn law_absent_identity<T>(visuals: Seq<Visual<T>>, id: VisualId)
    requires
        forall|i: int| 0 <= i < visuals.len() ==> (#[trigger] visuals[i]).id != id,
    ensures
        !has_visual(visuals, id),
{
    if has_visual(visuals, id) {
        let i = first_with_id(visuals, id);
        assert(visuals[i].id == id);
    }
}

/// What a scene must be: no two visuals share an identity, and a visual is
/// marked only if it is the selected one.
pub proof fn law_scene_invariant<T>(scene: Scene<T>, i: int, j: int)
    requires
        scene.well_formed(),
        0 <= i < scene.visuals@.len(),
        0 <= j < scene.visuals@.len(),
    ensures
        scene.visuals@[i].id == scene.visuals@[j].id ==> i == j,
        scene.visuals@[i].selected ==> scene.selected_id == Some(scene.visuals@[i].id),
{
}

/// A scene with one visual for each identity and none marked is one that may
/// be.
pub proof fn law_unmarked_scene_is_well_formed<T>(scene: Scene<T>)
    requires
        forall|i: int, j: int|
            0 <= i < j < scene.visuals@.len() ==> (#[trigger] scene.visuals@[i]).id != (
            #[trigger] scene.visuals@[j]).id,
        forall|i: int|
            0 <= i < scene.visuals@.len() ==> !(#[trigger] scene.visuals@[i]).selected,
    ensures
        scene.well_formed(),
{
}

/// Two scenes have the same targets exactly when selection and focus agree.
pub proof fn law_targets_are_selection_and_focus<T>(a: Scene<T>, b: Scene<T>)
    ensures
        a.same_targets(&b) <==> a.selected_id == b.selected_id && a.focused_id == b.focused_id,
{
}

/// Nothing is moved, turned or scaled by the unit transform.
pub proof fn law_unit_transform()
    ensures
        ({
            let t = Transform3D::unit();
            &&& t.position.x.bits == 0 && t.position.y.bits == 0 && t.position.z.bits == 0
            &&& t.rotation.s.bits == 0x3f80_0000
            &&& t.rotation.v.x.bits == 0 && t.rotation.v.y.bits == 0 && t.rotation.v.z.bits == 0
            &&& t.scale.x.bits == 0x3f80_0000 && t.scale.y.bits == 0x3f80_0000 && t.scale.z.bits
                == 0x3f80_0000
        }),
{
}

/// A new visual has the identity, content and geometry that it was given; it is
/// not moved, not marked, connected, and presented normally.
pub proof fn law_new_visual<T>(id: VisualId, content: VisualContent<T>, geometry: Rect)
    ensures
        ({
            let v = Visual::fresh(id, content, geometry);
            &&& v.id == id
            &&& v.content == content
            &&& v.geometry == geometry
            &&& v.transform == Transform3D::unit()
            &&& !v.selected
            &&& v.content_state == ContentState::Ready
            &&& v.window_state == WindowState::Normal
        }),
{
}

/// Content that was given a texture holds that texture, is of the kind that it
/// was, and forgets the one before.
pub proof fn law_content_holds_its_texture<T>(content: VisualContent<T>, first: T, second: T)
    ensures
        content.holding(first).held() == first,
        content.holding(first).holding(second) == content.holding(second),
        content.holding(content.held()) == content,
        content is WaylandSurface <==> content.holding(first) is WaylandSurface,
        content matches VisualContent::WaylandSurface(t) ==> content.held() == t,
        content matches VisualContent::ExternalTexture(t) ==> content.held() == t,
{
}

/// Changing one visual changes the first one of its identity, and no other, and
/// changes nothing where there is none.
pub proof fn law_change_is_of_one_visual<T>(
    visuals: Seq<Visual<T>>,
    id: VisualId,
    change: spec_fn(Visual<T>) -> Visual<T>,
    i: int,
    k: int,
)
    requires
        0 <= i < visuals.len(),
        visuals[i].id == id,
        forall|j: int| 0 <= j < i ==> (#[trigger] visuals[j]).id != id,
        0 <= k < visuals.len(),
    ensures
        changed(visuals, id, change).len() == visuals.len(),
        changed(visuals, id, change)[i] == change(visuals[i]),
        k != i ==> changed(visuals, id, change)[k] == visuals[k],
{
    lemma_present(visuals, i, id);
    assert(is_first(visuals, i, id));
    assert(first_with_id(visuals, id) == i);
}

/// Operations on an identity that no visual has leave the visuals alone.
pub proof fn law_absent_visual_changes_nothing<T>(
    visuals: Seq<Visual<T>>,
    id: VisualId,
    change: spec_fn(Visual<T>) -> Visual<T>,
    selected: bool,
)
    requires
        forall|i: int| 0 <= i < visuals.len() ==> (#[trigger] visuals[i]).id != id,
    ensures
        changed(visuals, id, change) == visuals,
        marked(visuals, Some(id), selected) == visuals,
        marked(visuals, None, selected) == visuals,
        to_front(visuals, id) == visuals,
        to_back(visuals, id) == visuals,
        raised(visuals, id) == visuals,
        lowered(visuals, id) == visuals,
{
    law_absent_identity(visuals, id);
}

/// Selecting marks the visual that is selected now and takes the mark off all
/// others; nothing else of any visual changes, and none moves.
pub proof fn law_selection_moves_one_mark<T>(scene: Scene<T>, id: Option<VisualId>, k: int)
    requires
        scene.well_formed(),
        0 <= k < scene.visuals@.len(),
        scene.selected_id != id,
    ensures
        ({
            let after = scene.with_selection(id);
            &&& after.len() == scene.visuals@.len()
            &&& after[k].selected <==> id == Some(scene.visuals@[k].id)
            &&& after[k].id == scene.visuals@[k].id
            &&& after[k].content == scene.visuals@[k].content
            &&& after[k].geometry == scene.visuals@[k].geometry
            &&& after[k].transform == scene.visuals@[k].transform
            &&& after[k].content_state == scene.visuals@[k].content_state
            &&& after[k].window_state == scene.visuals@[k].window_state
        }),
{
    lemma_marking(scene.visuals@, scene.selected_id, id);
}

/// Selecting what is selected already changes nothing.
pub proof fn law_selecting_again_changes_nothing<T>(scene: Scene<T>)
    ensures
        scene.with_selection(scene.selected_id) == scene.visuals@,
{
}

/// A visual that is brought to the front comes after all others, and those that
/// were in front of it close up.
pub proof fn law_front_by_places<T>(visuals: Seq<Visual<T>>, id: VisualId, i: int, k: int)
    requires
        0 <= i < visuals.len(),
        visuals[i].id == id,
        forall|j: int| 0 <= j < i ==> (#[trigger] visuals[j]).id != id,
        0 <= k < visuals.len(),
    ensures
        to_front(visuals, id).len() == visuals.len(),
        to_front(visuals, id)[visuals.len() - 1] == visuals[i],
        k < i ==> to_front(visuals, id)[k] == visuals[k],
        k > i ==> to_front(visuals, id)[k - 1] == visuals[k],
{
    lemma_present(visuals, i, id);
    assert(first_with_id(visuals, id) == i);
}

/// A visual that is sent to the back comes before all others, and those that
/// were behind it move up.
pub proof fn law_back_by_places<T>(visuals: Seq<Visual<T>>, id: VisualId, i: int, k: int)
    requires
        0 <= i < visuals.len(),
        visuals[i].id == id,
        forall|j: int| 0 <= j < i ==> (#[trigger] visuals[j]).id != id,
        0 <= k < visuals.len(),
    ensures
        to_back(visuals, id).len() == visuals.len(),
        to_back(visuals, id)[0] == visuals[i],
        k < i ==> to_back(visuals, id)[k + 1] == visuals[k],
        k > i ==> to_back(visuals, id)[k] == visuals[k],
{
    lemma_present(visuals, i, id);
    assert(first_with_id(visuals, id) == i);
}

/// Raising or lowering a visual exchanges it with its neighbour on that side,
/// if it has one, and moves no other.
pub proof fn law_raise_and_lower_by_places<T>(visuals: Seq<Visual<T>>, id: VisualId, i: int, k: int)
    requires
        0 <= i < visuals.len(),
        visuals[i].id == id,
        forall|j: int| 0 <= j < i ==> (#[trigger] visuals[j]).id != id,
        0 <= k < visuals.len(),
    ensures
        raised(visuals, id).len() == visuals.len(),
        lowered(visuals, id).len() == visuals.len(),
        i + 1 < visuals.len() ==> raised(visuals, id)[i + 1] == visuals[i] && raised(
            visuals,
            id,
        )[i] == visuals[i + 1],
        i + 1 == visuals.len() ==> raised(visuals, id) == visuals,
        k != i && k != i + 1 ==> raised(visuals, id)[k] == visuals[k],
        i > 0 ==> lowered(visuals, id)[i - 1] == visuals[i] && lowered(visuals, id)[i]
            == visuals[i - 1],
        i == 0 ==> lowered(visuals, id) == visuals,
        k != i && k != i - 1 ==> lowered(visuals, id)[k] == visuals[k],
{
    lemma_present(visuals, i, id);
    assert(first_with_id(visuals, id) == i);
}

/// What is left after an identity was removed are the visuals with other
/// identities, all of them, in the order in which they were.
pub proof fn law_removal_by_places<T>(visuals: Seq<Visual<T>>, id: VisualId, last: Visual<T>)
    ensures
        Seq::<Visual<T>>::empty().filter(other_than(id)) == Seq::<Visual<T>>::empty(),
        last.id == id ==> visuals.push(last).filter(other_than(id)) == visuals.filter(
            other_than(id),
        ),
        last.id != id ==> visuals.push(last).filter(other_than(id)) == visuals.filter(
            other_than(id),
        ).push(last),
{
    reveal(Seq::filter);
    assert(visuals.push(last).drop_last() =~= visuals);
}

/// The last place that is given for a visual is where it stands afterwards.
pub proof fn law_last_place_counts<T>(
    visuals: Seq<Visual<T>>,
    places: Seq<(VisualId, Transform3D)>,
    k: int,
    j: int,
)
    requires
        distinct_ids(visuals),
        0 <= k < visuals.len(),
        0 <= j < places.len(),
        places[j].0 == visuals[k].id,
        forall|l: int| j < l < places.len() ==> (#[trigger] places[l]).0 != visuals[k].id,
    ensures
        rearranged(visuals, places)[k] == (Visual { transform: places[j].1, ..visuals[k] }),
{
    law_arranging_moves_only_the_named(visuals, places, k);
    lemma_last_place(places, visuals[k].id, j);
}

proof fn lemma_last_place(places: Seq<(VisualId, Transform3D)>, id: VisualId, j: int)
    requires
        0 <= j < places.len(),
        places[j].0 == id,
        forall|l: int| j < l < places.len() ==> (#[trigger] places[l]).0 != id,
    ensures
        last_place(places, id) == Some(places[j].1),
    decreases places.len(),
{
    if j < places.len() - 1 {
        assert(places[places.len() - 1].0 != id);
        let front = places.drop_last();
        assert forall|l: int| j < l < front.len() implies (#[trigger] front[l]).0 != id by {
            assert(front[l] == places[l]);
        }
        lemma_last_place(front, id, j);
    }
}

/// A visual for which no place is given stays as it is.
pub proof fn law_unplaced_visuals_stay<T>(
    visuals: Seq<Visual<T>>,
    places: Seq<(VisualId, Transform3D)>,
    k: int,
)
    requires
        distinct_ids(visuals),
        0 <= k < visuals.len(),
        forall|l: int| 0 <= l < places.len() ==> (#[trigger] places[l]).0 != visuals[k].id,
    ensures
        rearranged(visuals, places)[k] == visuals[k],
{
    law_arranging_moves_only_the_named(visuals, places, k);
    lemma_no_place(places, visuals[k].id);
}

proof fn lemma_no_place(places: Seq<(VisualId, Transform3D)>, id: VisualId)
    requires
        forall|l: int| 0 <= l < places.len() ==> (#[trigger] places[l]).0 != id,
    ensures
        last_place(places, id) is None,
    decreases places.len(),
{
    if places.len() > 0 {
        assert(places[places.len() - 1].0 != id);
        let front = places.drop_last();
        assert forall|l: int| 0 <= l < front.len() implies (#[trigger] front[l]).0 != id by {
            assert(front[l] == places[l]);
        }
        lemma_no_place(front, id);
    }
}

/// Identities are numbered one after the other, and after the last number the
/// numbering goes on at zero.
pub proof fn law_identities_follow_each_other(ids: VisualIds, n: nat)
    ensures
        successor(ids.next) == (ids.next + 1) % (u64::MAX + 1),
        issued(ids, 0).0 == ids.next,
        issued(ids, n + 1).0 == (issued(ids, n).0 + 1) % (u64::MAX + 1),
{
}

} // verus!
