//! Input events of the compositor: the pointer, the keyboard, and framing.

use crate::compositor::{lemma_same_identities, shown, LookingGlass};
use crate::geometry::Point3;
use crate::input::CameraView;
use crate::input_router::{kernel_code, keyboard_event, usage, KeyboardEvent, PointerEventKind};
use crate::scalar::{Scalar, Scalar64};
use crate::scene::{
    first_with_id, has_visual, is_first, law_front_by_places, law_selection_moves_one_mark,
    lemma_present, lemma_rearranged, marked, rearranged, to_front, Transform3D, Visual, VisualId,
};
use vstd::prelude::*;

verus! {

broadcast use vstd::std_specs::hash::group_hash_axioms;

/// The key that switches the spatial mode, by its platform code.
pub const MODE_KEY: u32 = 23;

/// Where a pointer event is delivered: the visual, and what is needed to work
/// out the place on it.
#[derive(Debug, Clone, Copy, PartialEq)]
pub struct ContentRoute {
    pub target: VisualId,
    pub transform: Transform3D,
    pub width: i32,
    pub height: i32,
}

impl<T, P, S> LookingGlass<T, P, S> {
    /// A pointer event takes this state, with these visuals and this selection,
    /// to `after` and is delivered along `route`.
    ///
    /// Without a selection nothing happens. Pressing a button gives the
    /// selected visual the focus and brings it to the front; the event is
    /// delivered to it if it is in the scene and has a receiver of input.
    pub open spec fn routes_among(
        &self,
        visuals: Seq<Visual<T>>,
        selected: Option<VisualId>,
        kind: PointerEventKind,
        after: &LookingGlass<T, P, S>,
        route: Option<ContentRoute>,
    ) -> bool {
        &&& *after == (LookingGlass { scene: after.scene, ..*self })
        &&& after.scene.selected_id == selected
        &&& match selected {
            None => {
                &&& route is None
                &&& after.scene.visuals@ == visuals
                &&& after.scene.focused_id == self.scene.focused_id
            },
            Some(id) => {
                let pressed = kind == PointerEventKind::Down;
                &&& after.scene.focused_id == if pressed {
                    Some(id)
                } else {
                    self.scene.focused_id
                }
                &&& after.scene.visuals@ == if pressed {
                    to_front(visuals, id)
                } else {
                    visuals
                }
                &&& route == if has_visual(visuals, id) && self.input_sinks@.contains_key(id.0) {
                    let v = after.scene.visuals@[first_with_id(after.scene.visuals@, id)];
                    Some(
                        ContentRoute {
                            target: id,
                            transform: v.transform,
                            width: v.geometry.w,
                            height: v.geometry.h,
                        },
                    )
                } else {
                    None
                }
            },
        }
    }

    /// A pointer event takes this state to `after` and is delivered along
    /// `route`.
    pub open spec fn routes(
        &self,
        kind: PointerEventKind,
        after: &LookingGlass<T, P, S>,
        route: Option<ContentRoute>,
    ) -> bool {
        self.routes_among(self.scene.visuals@, self.scene.selected_id, kind, after, route)
    }

    /// Routes a pointer event to the content of the selected visual.
    pub fn route_to_content(&mut self, kind: PointerEventKind) -> (route: Option<ContentRoute>)
        ensures
            old(self).routes(kind, final(self), route),
            old(self).well_formed() ==> forall|i: int|
                0 <= i < old(self).scene.visuals@.len() && old(self).scene.selected_id == Some(
                    (#[trigger] old(self).scene.visuals@[i]).id,
                ) && old(self).input_sinks@.contains_key(old(self).scene.visuals@[i].id.0)
                    ==> (route matches Some(r) && {
                    &&& r.target == old(self).scene.visuals@[i].id
                    &&& r.transform == old(self).scene.visuals@[i].transform
                    &&& r.width == old(self).scene.visuals@[i].geometry.w
                    &&& r.height == old(self).scene.visuals@[i].geometry.h
                }),
            route matches Some(r) ==> old(self).scene.selected_id == Some(r.target)
                && old(self).input_sinks@.contains_key(r.target.0) && exists|i: int|
                0 <= i < old(self).scene.visuals@.len() && (
                #[trigger] old(self).scene.visuals@[i]).id == r.target,
            final(self).scene.selected_id == old(self).scene.selected_id,
            final(self).scene.focused_id == if kind is Down && old(self).scene.selected_id is Some {
                old(self).scene.selected_id
            } else {
                old(self).scene.focused_id
            },
            old(self).well_formed() ==> final(self).well_formed(),
    {
        let id = match self.scene.selected_id {
            Some(id) => id,
            None => return None,
        };
        if kind == PointerEventKind::Down {
            self.scene.focus(Some(id));
            self.scene.bring_to_front(id);
        }
        proof {
            lemma_front_keeps_visuals(*old(self), *self, id);
            if old(self).well_formed() {
                lemma_front_keeps_each(*old(self), *self, id);
            }
            if has_visual(old(self).scene.visuals@, id) {
                assert(old(self).scene.visuals@[first_with_id(old(self).scene.visuals@, id)].id
                    == id);
            }
        }
        let index: usize = match self.scene.position(id) {
            Some(i) => i,
            None => return None,
        };
        if !self.input_sinks.contains_key(&id.0) {
            return None;
        }
        let v = &self.scene.visuals[index];
        Some(
            ContentRoute {
                target: id,
                transform: v.transform,
                width: v.geometry.w,
                height: v.geometry.h,
            },
        )
    }
}

/// What is delivered of a pointer event: the visual and the place on it, if
/// the event has a route and the pointer is on the visual.
pub fn pointer_delivery(route: Option<ContentRoute>, place: Option<(Scalar, Scalar)>) -> (r: Option<
    (VisualId, Scalar, Scalar),
>)
    ensures
        r == match (route, place) {
            (Some(c), Some(p)) => Some((c.target, p.0, p.1)),
            _ => None,
        },
{
    match (route, place) {
        (Some(c), Some((u, v))) => Some((c.target, u, v)),
        _ => None,
    }
}

/// Bringing a visual to the front, or not, leaves the same visuals in the
/// scene.
proof fn lemma_front_keeps_visuals<T, P, S>(
    before: LookingGlass<T, P, S>,
    after: LookingGlass<T, P, S>,
    id: VisualId,
)
    requires
        after.scene.visuals@ == before.scene.visuals@ || after.scene.visuals@ == to_front(
            before.scene.visuals@,
            id,
        ),
        before.well_formed() ==> after.scene.well_formed(),
        after.ids == before.ids,
        after.toplevels == before.toplevels,
        after.producers == before.producers,
    ensures
        has_visual(after.scene.visuals@, id) == has_visual(before.scene.visuals@, id),
        before.well_formed() ==> after.well_formed(),
{
    let old_order = before.scene.visuals@;
    let new_order = after.scene.visuals@;
    if new_order != old_order {
        let i = first_with_id(old_order, id);
        lemma_present(new_order, new_order.len() - 1, id);
        assert forall|k: int| 0 <= k < new_order.len() implies #[trigger] new_order[k]
            == old_order[if k < i { k } else if k < new_order.len() - 1 { k + 1 } else { i }] by {}
        assert forall|x: VisualId| shown(before.scene, x) implies shown(after.scene, x) by {
            let k = choose|k: int| 0 <= k < old_order.len() && (#[trigger] old_order[k]).id == x;
            let l = if k < i { k } else if k == i { new_order.len() - 1 } else { k - 1 };
            assert(new_order[l] == old_order[k]);
        }
    }
}

/// Bringing a visual to the front, or not, leaves every visual as it is, to be
/// found by its identity.
proof fn lemma_front_keeps_each<T, P, S>(
    before: LookingGlass<T, P, S>,
    after: LookingGlass<T, P, S>,
    id: VisualId,
)
    requires
        before.scene.well_formed(),
        after.scene.well_formed(),
        after.scene.visuals@ == before.scene.visuals@ || after.scene.visuals@ == to_front(
            before.scene.visuals@,
            id,
        ),
    ensures
        forall|k: int|
            0 <= k < before.scene.visuals@.len() && (#[trigger] before.scene.visuals@[k]).id == id
                ==> has_visual(after.scene.visuals@, id)
                && after.scene.visuals@[first_with_id(after.scene.visuals@, id)]
                == before.scene.visuals@[k],
{
    let old_order = before.scene.visuals@;
    let new_order = after.scene.visuals@;
    assert forall|k: int| 0 <= k < old_order.len() && (#[trigger] old_order[k]).id == id implies
        has_visual(new_order, id) && new_order[first_with_id(new_order, id)] == old_order[k] by {
        lemma_present(old_order, k, id);
        assert(first_with_id(old_order, id) == k);
        let l = if new_order == old_order { k } else { new_order.len() - 1 };
        assert(new_order[l] == old_order[k]);
        lemma_present(new_order, l, id);
        assert(first_with_id(new_order, id) == l);
    }
}

/// Moving the selection leaves the identities of the visuals, their places,
/// sizes and order.
proof fn lemma_selecting_keeps_identities<T>(
    visuals: Seq<Visual<T>>,
    previous: Option<VisualId>,
    id: Option<VisualId>,
)
    ensures
        ({
            let after = marked(marked(visuals, previous, false), id, true);
            &&& after.len() == visuals.len()
            &&& forall|k: int|
                0 <= k < visuals.len() ==> (#[trigger] after[k]).id == visuals[k].id
                    && after[k].transform == visuals[k].transform && after[k].geometry
                    == visuals[k].geometry
        }),
{
    let cleared = marked(visuals, previous, false);
    assert forall|k: int| 0 <= k < visuals.len() implies (#[trigger] cleared[k]).id
        == visuals[k].id && cleared[k].transform == visuals[k].transform && cleared[k].geometry
        == visuals[k].geometry by {}
    let after = marked(cleared, id, true);
    assert forall|k: int| 0 <= k < visuals.len() implies (#[trigger] after[k]).id
        == visuals[k].id && after[k].transform == visuals[k].transform && after[k].geometry
        == visuals[k].geometry by {
        assert(cleared[k].id == visuals[k].id);
    }
}

impl<T, P, S> LookingGlass<T, P, S> {
    /// Pressing a button while the pointer is on `picked` leads to `after` and
    /// along `route`: what was picked is selected, and then a manipulation
    /// begins or the press goes to the content.
    pub open spec fn presses(
        &self,
        picked: Option<VisualId>,
        manipulating: bool,
        after: &LookingGlass<T, P, S>,
        route: Option<ContentRoute>,
    ) -> bool {
        let visuals = self.scene.with_selection(picked);
        if manipulating {
            &&& route is None
            &&& after.scene.visuals@ == visuals
            &&& after.scene.selected_id == picked
            &&& after.scene.focused_id == self.scene.focused_id
            &&& *after == (LookingGlass { dragging: true, scene: after.scene, ..*self })
        } else {
            self.routes_among(visuals, picked, PointerEventKind::Down, after, route)
        }
    }

    /// Releasing a button leads to `after` and along `route`: a manipulation
    /// ends, or the release goes to the content.
    pub open spec fn releases(
        &self,
        after: &LookingGlass<T, P, S>,
        route: Option<ContentRoute>,
    ) -> bool {
        if self.dragging {
            route is None && *after == (LookingGlass { dragging: false, ..*self })
        } else {
            self.routes(PointerEventKind::Up, after, route)
        }
    }

    /// A button was pressed while the pointer was on `picked`, which is now
    /// selected. While it moves a visual or the camera, content does not see
    /// it.
    pub fn handle_pointer_down(&mut self, picked: Option<VisualId>, manipulating: bool) -> (route:
        Option<ContentRoute>)
        ensures
            old(self).presses(picked, manipulating, final(self), route),
            old(self).well_formed() && !manipulating ==> forall|i: int|
                0 <= i < old(self).scene.visuals@.len() && picked == Some(
                    (#[trigger] old(self).scene.visuals@[i]).id,
                ) && old(self).input_sinks@.contains_key(old(self).scene.visuals@[i].id.0)
                    ==> (route matches Some(r) && {
                    &&& r.target == old(self).scene.visuals@[i].id
                    &&& r.transform == old(self).scene.visuals@[i].transform
                    &&& r.width == old(self).scene.visuals@[i].geometry.w
                    &&& r.height == old(self).scene.visuals@[i].geometry.h
                }),
            route matches Some(r) ==> picked == Some(r.target)
                && old(self).input_sinks@.contains_key(r.target.0) && exists|i: int|
                0 <= i < old(self).scene.visuals@.len() && (
                #[trigger] old(self).scene.visuals@[i]).id == r.target,
            manipulating ==> route is None && final(self).scene.focused_id
                == old(self).scene.focused_id,
            !manipulating ==> final(self).scene.focused_id == if picked is Some {
                picked
            } else {
                old(self).scene.focused_id
            },
            final(self).scene.selected_id == picked,
            final(self).dragging == (old(self).dragging || manipulating),
            old(self).well_formed() ==> final(self).well_formed(),
    {
        self.scene.select(picked);
        proof {
            lemma_selecting_keeps_identities(
                old(self).scene.visuals@,
                old(self).scene.selected_id,
                picked,
            );
            lemma_same_identities(*old(self), *self);
        }
        if manipulating {
            self.dragging = true;
            return None;
        }
        let ghost selected = *self;
        let route = self.route_to_content(PointerEventKind::Down);
        proof {
            let visuals = old(self).scene.visuals@;
            assert forall|k: int| 0 <= k < visuals.len() implies
                selected.scene.visuals@[k].transform == (#[trigger] visuals[k]).transform
                && selected.scene.visuals@[k].geometry == visuals[k].geometry
                && selected.scene.visuals@[k].id == visuals[k].id by {
                if old(self).scene.selected_id != picked {
                    let after = marked(
                        marked(visuals, old(self).scene.selected_id, false),
                        picked,
                        true,
                    );
                    assert(after[k].id == visuals[k].id);
                }
            }
            if route is Some {
                let k = choose|k: int|
                    0 <= k < selected.scene.visuals@.len() && (
                    #[trigger] selected.scene.visuals@[k]).id == route->0.target;
                assert(visuals[k].id == route->0.target);
            }
        }
        route
    }

    /// A button was released. If that ends a manipulation, content does not
    /// see it.
    pub fn handle_pointer_up(&mut self) -> (route: Option<ContentRoute>)
        ensures
            old(self).releases(final(self), route),
            old(self).well_formed() && !old(self).dragging ==> forall|i: int|
                0 <= i < old(self).scene.visuals@.len() && old(self).scene.selected_id == Some(
                    (#[trigger] old(self).scene.visuals@[i]).id,
                ) && old(self).input_sinks@.contains_key(old(self).scene.visuals@[i].id.0)
                    ==> (route matches Some(r) && {
                    &&& r.target == old(self).scene.visuals@[i].id
                    &&& r.transform == old(self).scene.visuals@[i].transform
                    &&& r.width == old(self).scene.visuals@[i].geometry.w
                    &&& r.height == old(self).scene.visuals@[i].geometry.h
                }),
            route matches Some(r) ==> old(self).scene.selected_id == Some(r.target)
                && old(self).input_sinks@.contains_key(r.target.0) && exists|i: int|
                0 <= i < old(self).scene.visuals@.len() && (
                #[trigger] old(self).scene.visuals@[i]).id == r.target,
            old(self).dragging ==> route is None,
            !final(self).dragging,
            final(self).scene.visuals@ == old(self).scene.visuals@,
            final(self).scene.selected_id == old(self).scene.selected_id,
            final(self).scene.focused_id == old(self).scene.focused_id,
            old(self).well_formed() ==> final(self).well_formed(),
    {
        if self.dragging {
            self.dragging = false;
            return None;
        }
        self.route_to_content(PointerEventKind::Up)
    }

    /// The pointer moved. `moved` lists the visuals that it drags along, with
    /// their new places.
    pub fn handle_pointer_move(
        &mut self,
        x: Scalar64,
        y: Scalar64,
        moved: &Vec<(VisualId, Transform3D)>,
    )
        ensures
            final(self).scene.visuals@ == rearranged(old(self).scene.visuals@, moved@),
            final(self).scene.same_targets(&old(self).scene),
            final(self).scene.selected_id == old(self).scene.selected_id,
            final(self).scene.focused_id == old(self).scene.focused_id,
            *final(self) == (LookingGlass {
                last_mouse: (x, y),
                scene: final(self).scene,
                ..*old(self)
            }),
            old(self).well_formed() ==> final(self).well_formed(),
    {
        self.last_mouse = (x, y);
        self.scene.arrange(moved);
        proof {
            lemma_rearranged(old(self).scene.visuals@, moved@);
            lemma_same_identities(*old(self), *self);
        }
    }

    /// Where a key goes, by its platform code: to the visual that holds the
    /// focus, if it has a receiver of input and the table has a key for it.
    pub open spec fn key_route(&self, key: u32, pressed: bool, keymap: Seq<u32>) -> Option<
        (VisualId, KeyboardEvent),
    > {
        let hid = usage(keymap, kernel_code(key));
        match self.scene.focused_id {
            Some(id) if self.input_sinks@.contains_key(id.0) && hid != 0 => Some(
                (id, KeyboardEvent { key: hid, pressed }),
            ),
            _ => None,
        }
    }

    /// Routes a key to the visual that holds the focus. `keymap` lists the key
    /// of the USB keyboard page for each kernel key code.
    pub fn route_keyboard(&self, key: u32, pressed: bool, keymap: &Vec<u32>) -> (r: Option<
        (VisualId, KeyboardEvent),
    >)
        ensures
            r == self.key_route(key, pressed, keymap@),
    {
        match self.scene.focused_id {
            None => None,
            Some(id) => {
                if !self.input_sinks.contains_key(&id.0) {
                    return None;
                }
                match keyboard_event(key, pressed, keymap) {
                    Some(event) => Some((id, event)),
                    None => None,
                }
            },
        }
    }

    /// The mode after a key was pressed or released.
    pub open spec fn mode_after(&self, key: u32, pressed: bool) -> bool {
        if key == MODE_KEY && pressed {
            !self.spatial_mode
        } else {
            self.spatial_mode
        }
    }

    /// A key was pressed or released. The mode key belongs to the compositor
    /// and switches the spatial mode when pressed; other keys go to the visual
    /// that holds the focus.
    pub fn handle_key(&mut self, key: u32, pressed: bool, keymap: &Vec<u32>) -> (r: Option<
        (VisualId, KeyboardEvent),
    >)
        ensures
            r == if key == MODE_KEY {
                None
            } else {
                old(self).key_route(key, pressed, keymap@)
            },
            *final(self) == (LookingGlass {
                spatial_mode: old(self).mode_after(key, pressed),
                ..*old(self)
            }),
            key == 23 ==> r is None,
            key == 23 && pressed ==> final(self).spatial_mode == !old(self).spatial_mode,
            key != 23 || !pressed ==> final(self).spatial_mode == old(self).spatial_mode,
            r matches Some(delivery) ==> old(self).scene.focused_id == Some(delivery.0)
                && old(self).input_sinks@.contains_key(delivery.0.0) && delivery.1.pressed
                == pressed,
            old(self).well_formed() ==> final(self).well_formed(),
    {
        if key == MODE_KEY {
            if pressed {
                self.spatial_mode = !self.spatial_mode;
            }
            return None;
        }
        self.route_keyboard(key, pressed, keymap)
    }

    /// Moves the camera to where the selected visual is seen best, given that
    /// place if the visual is there. False if nothing is selected or the
    /// visual is not there.
    pub fn frame_selected(&mut self, eye: Option<Point3>) -> (r: bool)
        ensures
            r == (old(self).scene.selected_id is Some && eye is Some),
            final(self).camera.view() == if r {
                CameraView { position: eye->0, ..old(self).camera.view() }
            } else {
                old(self).camera.view()
            },
            final(self).camera.same_settings(&old(self).camera),
            final(self).camera.position == if r {
                eye->0
            } else {
                old(self).camera.position
            },
            final(self).camera.yaw == old(self).camera.yaw,
            final(self).camera.pitch == old(self).camera.pitch,
            final(self).camera.speed == old(self).camera.speed,
            final(self).camera.sensitivity == old(self).camera.sensitivity,
            final(self).camera.zoom_speed == old(self).camera.zoom_speed,
            final(self).camera.bookmarks@ == old(self).camera.bookmarks@,
            *final(self) == (LookingGlass { camera: final(self).camera, ..*old(self) }),
            old(self).well_formed() ==> final(self).well_formed(),
    {
        if self.scene.selected_id.is_none() {
            return false;
        }
        match eye {
            Some(p) => {
                self.camera.position = p;
                true
            },
            None => false,
        }
    }
}

/// Keyboard input reaches no visual but the one that holds the focus: what is
/// delivered goes to it, and without a focus nothing is delivered.
pub proof fn law_keys_go_to_the_focus<T, P, S>(
    state: LookingGlass<T, P, S>,
    key: u32,
    pressed: bool,
    keymap: Seq<u32>,
)
    ensures
        state.key_route(key, pressed, keymap) matches Some(delivery) ==> {
            &&& state.scene.focused_id == Some(delivery.0)
            &&& delivery.1.pressed == pressed
            &&& delivery.1.key == usage(keymap, kernel_code(key))
        },
        state.scene.focused_id is None ==> state.key_route(key, pressed, keymap) is None,
{
}

/// Where a key goes depends only on the focus and the receivers of input: a
/// change of the selection, the visuals or the mode does not redirect it.
pub proof fn law_key_route_ignores_the_rest<T, P, S>(
    one: LookingGlass<T, P, S>,
    other: LookingGlass<T, P, S>,
    key: u32,
    pressed: bool,
    keymap: Seq<u32>,
)
    requires
        one.scene.focused_id == other.scene.focused_id,
        one.input_sinks@ == other.input_sinks@,
    ensures
        one.key_route(key, pressed, keymap) == other.key_route(key, pressed, keymap),
{
}

/// Pressing the mode key twice leads back to the mode it started in, and
/// releasing it in between makes no difference.
pub proof fn law_mode_key_toggles<T, P, S>(
    before: LookingGlass<T, P, S>,
    between: LookingGlass<T, P, S>,
    released: LookingGlass<T, P, S>,
)
    requires
        between.spatial_mode == before.mode_after(MODE_KEY, true),
        released.spatial_mode == between.mode_after(MODE_KEY, false),
    ensures
        between.spatial_mode != before.spatial_mode,
        released.mode_after(MODE_KEY, true) == before.spatial_mode,
{
}

/// A press reaches no visual but the one that was picked, which it leaves
/// selected, focused and in front of all others.
pub proof fn law_press_focuses_and_raises<T, P, S>(
    before: LookingGlass<T, P, S>,
    picked: VisualId,
    after: LookingGlass<T, P, S>,
    route: Option<ContentRoute>,
)
    requires
        before.presses(Some(picked), false, &after, route),
    ensures
        after.scene.selected_id == Some(picked),
        after.scene.focused_id == Some(picked),
        route matches Some(r) ==> r.target == picked,
        has_visual(before.scene.visuals@, picked) ==> after.scene.visuals@.last().id == picked,
{
    let visuals = before.scene.with_selection(Some(picked));
    lemma_selecting_keeps_identities(
        before.scene.visuals@,
        before.scene.selected_id,
        Some(picked),
    );
    if has_visual(before.scene.visuals@, picked) {
        let i = first_with_id(before.scene.visuals@, picked);
        assert(is_first(before.scene.visuals@, i, picked));
        assert(visuals[i].id == picked);
        lemma_present(visuals, i, picked);
    }
}

/// A press beside all visuals takes the selection away and reaches nothing.
pub proof fn law_press_beside_everything<T, P, S>(
    before: LookingGlass<T, P, S>,
    after: LookingGlass<T, P, S>,
    route: Option<ContentRoute>,
)
    requires
        before.presses(None, false, &after, route),
    ensures
        route is None,
        after.scene.selected_id is None,
        after.scene.focused_id == before.scene.focused_id,
{
}

/// A manipulation from press to release is the compositor's own: content sees
/// neither event, the focus stays, and of the visuals only the mark of the
/// selection has moved.
pub proof fn law_manipulation_leaves_content_alone<T, P, S>(
    before: LookingGlass<T, P, S>,
    picked: Option<VisualId>,
    between: LookingGlass<T, P, S>,
    after: LookingGlass<T, P, S>,
    press: Option<ContentRoute>,
    release: Option<ContentRoute>,
)
    requires
        !before.dragging,
        before.presses(picked, true, &between, press),
        between.releases(&after, release),
    ensures
        press is None,
        release is None,
        after.scene.focused_id == before.scene.focused_id,
        after.scene.selected_id == picked,
        after.scene.visuals@ == before.scene.with_selection(picked),
        after == (LookingGlass { scene: after.scene, ..before }),
{
}

/// Releasing a button never changes which visual holds the focus or how the
/// visuals are stacked.
pub proof fn law_release_keeps_the_focus<T, P, S>(
    before: LookingGlass<T, P, S>,
    after: LookingGlass<T, P, S>,
    route: Option<ContentRoute>,
)
    requires
        before.releases(&after, route),
    ensures
        !after.dragging,
        after.scene.same_targets(&before.scene),
        after.scene.visuals@ == before.scene.visuals@,
        route matches Some(r) ==> Some(r.target) == before.scene.selected_id,
{
}

/// A press that is delivered carries the place and the size that the picked
/// visual has in the scene. It is delivered exactly when that visual is in the
/// scene and has a receiver of input.
pub proof fn law_press_carries_the_visual<T, P, S>(
    before: LookingGlass<T, P, S>,
    picked: VisualId,
    after: LookingGlass<T, P, S>,
    route: Option<ContentRoute>,
    i: int,
)
    requires
        before.well_formed(),
        before.presses(Some(picked), false, &after, route),
        0 <= i < before.scene.visuals@.len(),
        before.scene.visuals@[i].id == picked,
    ensures
        route is Some <==> before.input_sinks@.contains_key(picked.0),
        route matches Some(r) ==> {
            &&& r.target == picked
            &&& r.transform == before.scene.visuals@[i].transform
            &&& r.width == before.scene.visuals@[i].geometry.w
            &&& r.height == before.scene.visuals@[i].geometry.h
        },
{
    let visuals = before.scene.with_selection(Some(picked));
    let order = after.scene.visuals@;
    lemma_selecting_keeps_identities(
        before.scene.visuals@,
        before.scene.selected_id,
        Some(picked),
    );
    assert(visuals.len() == before.scene.visuals@.len());
    assert forall|k: int| 0 <= k < visuals.len() implies (#[trigger] visuals[k]).id
        == before.scene.visuals@[k].id by {}
    assert(visuals[i].id == picked);
    assert(visuals[i].transform == before.scene.visuals@[i].transform);
    lemma_present(visuals, i, picked);
    let f = first_with_id(visuals, picked);
    assert(before.scene.visuals@[f].id == picked);
    assert(f == i);
    assert(order[order.len() - 1] == visuals[i]);
    lemma_present(order, order.len() - 1, picked);
    let g = first_with_id(order, picked);
    if g < order.len() - 1 {
        let k = if g < i { g } else { g + 1 };
        assert(order[g] == visuals[k]);
        assert(before.scene.visuals@[k].id == before.scene.visuals@[i].id);
    }
}

/// A release that is delivered carries the place and the size that the selected
/// visual has in the scene. It is delivered exactly when no manipulation ends
/// with it, that visual is in the scene, and has a receiver of input.
pub proof fn law_release_carries_the_visual<T, P, S>(
    before: LookingGlass<T, P, S>,
    after: LookingGlass<T, P, S>,
    route: Option<ContentRoute>,
    i: int,
)
    requires
        before.releases(&after, route),
        0 <= i < before.scene.visuals@.len(),
        before.scene.selected_id == Some(before.scene.visuals@[i].id),
        forall|j: int|
            0 <= j < i ==> (#[trigger] before.scene.visuals@[j]).id != before.scene.visuals@[i].id,
    ensures
        route is Some <==> !before.dragging && before.input_sinks@.contains_key(
            before.scene.visuals@[i].id.0,
        ),
        route matches Some(r) ==> {
            &&& r.target == before.scene.visuals@[i].id
            &&& r.transform == before.scene.visuals@[i].transform
            &&& r.width == before.scene.visuals@[i].geometry.w
            &&& r.height == before.scene.visuals@[i].geometry.h
        },
{
    let id = before.scene.visuals@[i].id;
    lemma_present(before.scene.visuals@, i, id);
    assert(first_with_id(before.scene.visuals@, id) == i);
}

/// Any pointer event that is delivered carries the place and the size that the
/// selected visual has in the scene, whatever the event is.
pub proof fn law_pointer_event_carries_the_visual<T, P, S>(
    before: LookingGlass<T, P, S>,
    kind: PointerEventKind,
    after: LookingGlass<T, P, S>,
    route: Option<ContentRoute>,
    i: int,
)
    requires
        before.well_formed(),
        before.routes(kind, &after, route),
        0 <= i < before.scene.visuals@.len(),
        before.scene.selected_id == Some(before.scene.visuals@[i].id),
    ensures
        route is Some <==> before.input_sinks@.contains_key(before.scene.visuals@[i].id.0),
        route matches Some(r) ==> {
            &&& r.target == before.scene.visuals@[i].id
            &&& r.transform == before.scene.visuals@[i].transform
            &&& r.width == before.scene.visuals@[i].geometry.w
            &&& r.height == before.scene.visuals@[i].geometry.h
        },
        kind is Down ==> after.scene.focused_id == Some(before.scene.visuals@[i].id)
            && after.scene.visuals@[before.scene.visuals@.len() - 1] == before.scene.visuals@[i],
        !(kind is Down) ==> after.scene.focused_id == before.scene.focused_id
            && after.scene.visuals@ == before.scene.visuals@,
        after.scene.selected_id == before.scene.selected_id,
        after.scene.visuals@.len() == before.scene.visuals@.len(),
{
    let visuals = before.scene.visuals@;
    let order = after.scene.visuals@;
    let id = visuals[i].id;
    lemma_present(visuals, i, id);
    assert(first_with_id(visuals, id) == i);
    if kind is Down {
        assert(order[order.len() - 1] == visuals[i]);
        lemma_present(order, order.len() - 1, id);
        let g = first_with_id(order, id);
        if g < order.len() - 1 {
            let k = if g < i { g } else { g + 1 };
            assert(order[g] == visuals[k]);
        }
    }
}

/// A selection that is no visual of the scene gets no pointer event.
pub proof fn law_missing_visual_gets_nothing<T, P, S>(
    before: LookingGlass<T, P, S>,
    kind: PointerEventKind,
    after: LookingGlass<T, P, S>,
    route: Option<ContentRoute>,
)
    requires
        before.routes(kind, &after, route),
        forall|i: int|
            0 <= i < before.scene.visuals@.len() ==> before.scene.selected_id != Some(
                (#[trigger] before.scene.visuals@[i]).id,
            ),
    ensures
        route is None,
        after.scene.visuals@ == before.scene.visuals@,
{
    if before.scene.selected_id is Some {
        let id = before.scene.selected_id->0;
        if has_visual(before.scene.visuals@, id) {
            assert(before.scene.visuals@[first_with_id(before.scene.visuals@, id)].id == id);
        }
    }
}

/// A press changes nothing but the selection, the focus, the order of the
/// visuals, and whether a manipulation goes on.
pub proof fn law_press_leaves_the_rest<T, P, S>(
    before: LookingGlass<T, P, S>,
    picked: Option<VisualId>,
    manipulating: bool,
    after: LookingGlass<T, P, S>,
    route: Option<ContentRoute>,
)
    requires
        before.presses(picked, manipulating, &after, route),
    ensures
        after.scene.selected_id == picked,
        after.dragging == (before.dragging || manipulating),
        manipulating ==> route is None && after.scene.focused_id == before.scene.focused_id,
        !manipulating && picked is Some ==> after.scene.focused_id == picked,
        !manipulating && picked is None ==> after.scene.focused_id == before.scene.focused_id,
        after.camera == before.camera,
        after.spatial_mode == before.spatial_mode,
        after.layout_mode == before.layout_mode,
        after.toplevels == before.toplevels,
        after.producers == before.producers,
        after.input_sinks == before.input_sinks,
        after.ids == before.ids,
        after.last_mouse == before.last_mouse,
        after.window_size == before.window_size,
{
}

/// A release changes nothing but whether a manipulation goes on.
pub proof fn law_release_leaves_the_rest<T, P, S>(
    before: LookingGlass<T, P, S>,
    after: LookingGlass<T, P, S>,
    route: Option<ContentRoute>,
)
    requires
        before.releases(&after, route),
    ensures
        before.dragging ==> route is None,
        !after.dragging,
        after.scene.visuals@ == before.scene.visuals@,
        after.scene.selected_id == before.scene.selected_id,
        after.scene.focused_id == before.scene.focused_id,
        after.camera == before.camera,
        after.spatial_mode == before.spatial_mode,
        after.toplevels == before.toplevels,
        after.producers == before.producers,
        after.input_sinks == before.input_sinks,
        after.ids == before.ids,
{
}

/// A key reaches the visual in focus exactly when that has a receiver of input
/// and the table has a key for it; what it gets is that key of the table. Codes
/// above eight are looked up eight places below, others where they are.
pub proof fn law_key_delivery_by_the_table<T, P, S>(
    state: LookingGlass<T, P, S>,
    focus: VisualId,
    key: u32,
    pressed: bool,
    keymap: Seq<u32>,
)
    requires
        state.scene.focused_id == Some(focus),
    ensures
        ({
            let place = if key > 8 {
                key - 8
            } else {
                key as int
            };
            let route = state.key_route(key, pressed, keymap);
            &&& route is Some <==> state.input_sinks@.contains_key(focus.0) && place
                < keymap.len() && keymap[place] != 0
            &&& route matches Some(delivery) ==> {
                &&& delivery.0 == focus
                &&& delivery.1.key == keymap[place]
                &&& delivery.1.pressed == pressed
            }
        }),
{
}

/// Pressing the key with the code 23 switches the spatial mode; releasing it, or
/// any other key, leaves the mode.
pub proof fn law_mode_key_alone_switches<T, P, S>(
    state: LookingGlass<T, P, S>,
    key: u32,
    pressed: bool,
)
    ensures
        state.mode_after(23, true) == !state.spatial_mode,
        state.mode_after(23, false) == state.spatial_mode,
        key != 23 ==> state.mode_after(key, pressed) == state.spatial_mode,
{
}

/// A press on a visual leaves the others in their order, each as it was but for
/// the mark of the selection; the one that was picked comes after them, as it
/// was, and marked.
pub proof fn law_press_keeps_the_other_visuals<T, P, S>(
    before: LookingGlass<T, P, S>,
    picked: VisualId,
    after: LookingGlass<T, P, S>,
    route: Option<ContentRoute>,
    i: int,
    k: int,
)
    requires
        before.well_formed(),
        before.presses(Some(picked), false, &after, route),
        0 <= i < before.scene.visuals@.len(),
        before.scene.visuals@[i].id == picked,
        0 <= k < before.scene.visuals@.len(),
    ensures
        after.scene.visuals@.len() == before.scene.visuals@.len(),
        ({
            let old_visual = before.scene.visuals@[k];
            let new_visual = after.scene.visuals@[if k < i {
                k
            } else if k > i {
                k - 1
            } else {
                before.scene.visuals@.len() - 1
            }];
            &&& new_visual.id == old_visual.id
            &&& new_visual.content == old_visual.content
            &&& new_visual.transform == old_visual.transform
            &&& new_visual.geometry == old_visual.geometry
            &&& new_visual.content_state == old_visual.content_state
            &&& new_visual.window_state == old_visual.window_state
            &&& k != i ==> !new_visual.selected
            &&& k == i && before.scene.selected_id != Some(picked) ==> new_visual.selected
        }),
{
    let old_order = before.scene.visuals@;
    let visuals = before.scene.with_selection(Some(picked));
    lemma_selecting_keeps_identities(old_order, before.scene.selected_id, Some(picked));
    assert(visuals.len() == old_order.len());
    assert forall|m: int| 0 <= m < visuals.len() implies (#[trigger] visuals[m]).id
        == old_order[m].id by {}
    lemma_present(visuals, i, picked);
    let f = first_with_id(visuals, picked);
    assert(visuals[f].id == old_order[f].id);
    assert(f == i);
    if before.scene.selected_id != Some(picked) {
        law_selection_moves_one_mark(before.scene, Some(picked), k);
    }
    law_front_by_places(visuals, picked, i, k);
}

} // verus!
