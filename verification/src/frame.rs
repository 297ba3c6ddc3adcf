//! One frame of the compositor: asking the producers, handing their textures
//! to the scene, and aiming the camera.

use crate::compositor::{lemma_others_stay_shown, lemma_same_identities, LookingGlass};
use crate::geometry::Point3;
use crate::input::CameraView;
use crate::perf::{wrapped, PerfReport, PerfStats, PipelineStage, Reading};
use crate::producer::FrameResult;
use crate::scalar::{lemma_units_of_pattern, Scalar};
use crate::scene::{
    changed, distinct_ids, first_with_id, law_last_place_counts, lemma_filter_keeps, lemma_present,
    lemma_rearranged, other_than, rearranged, Transform3D, Visual, VisualContent, VisualId,
};
use vstd::arithmetic::power2::{lemma2_to64, pow2};
use vstd::prelude::*;

verus! {

/// Bit pattern of 500, the distance of the camera outside the spatial mode.
pub const FLAT_DISTANCE_BITS: u32 = 0x43fa_0000;

/// A frame in the making: when it began, which producer is asked next, the
/// textures that are new, and the visuals whose producer has finished.
#[derive(Debug)]
pub struct RenderPass<T> {
    pub started: Reading,
    pub index: usize,
    pub updates: Vec<(VisualId, T)>,
    pub removed: Vec<VisualId>,
}

/// What the clock showed while the scene was brought up to date: at the
/// beginning, when the textures were copied, and when the visuals of finished
/// producers were removed.
#[derive(Debug, Clone, Copy, PartialEq, Eq, Structural)]
pub struct RenderTimes {
    pub begun: Reading,
    pub copied: Reading,
    pub removed: Reading,
}

/// How the scene is projected onto the screen.
#[derive(Debug, Clone, Copy, PartialEq, Eq, Structural)]
pub enum Projection {
    Perspective,
    Orthographic,
}

/// The producers after the one at `i` was asked: it is gone if it has
/// finished, with the last one in its place.
pub open spec fn producers_after<P>(
    producers: Seq<(VisualId, P)>,
    i: int,
    finished: bool,
) -> Seq<(VisualId, P)> {
    if finished {
        producers.update(i, producers.last()).drop_last()
    } else {
        producers
    }
}

/// Which producer is asked after the one at `i`.
pub open spec fn index_after(i: int, finished: bool) -> int {
    if finished {
        i
    } else {
        i + 1
    }
}

/// The statistics after a producer took `elapsed_ns` to give this result.
pub open spec fn perf_after(perf: PerfStats, result: FrameResult, elapsed_ns: u64) -> PerfStats {
    let timed = PerfStats {
        stages: perf.stages.with(PipelineStage::ProducerUpdate, elapsed_ns),
        ..perf
    };
    match result {
        FrameResult::Updated => timed,
        FrameResult::Resized(_, _) => timed,
        FrameResult::Unchanged => PerfStats {
            consecutive_drops: wrapped(timed.consecutive_drops, 1),
            total_drops: wrapped(timed.total_drops, 1),
            ..timed
        },
        FrameResult::Error(_) => perf,
        FrameResult::Finished => perf,
    }
}

/// The statistics after the scene was brought up to date.
pub open spec fn updated_stages(perf: PerfStats, times: RenderTimes) -> PerfStats {
    PerfStats {
        stages: perf.stages.with(
            PipelineStage::TexCopy,
            times.copied.since(times.begun),
        ).with(PipelineStage::Remove, times.removed.since(times.copied)),
        ..perf.at(times.removed)
    }
}

/// The statistics with the time of a whole frame.
pub open spec fn with_total(perf: PerfStats, total_ns: u64) -> PerfStats {
    PerfStats { stages: perf.stages.with(PipelineStage::Total, total_ns), ..perf }
}

/// The visuals after textures were replaced one after the other.
pub open spec fn retextured<T>(visuals: Seq<Visual<T>>, updates: Seq<(VisualId, T)>) -> Seq<
    Visual<T>,
>
    decreases updates.len(),
{
    if updates.len() == 0 {
        visuals
    } else {
        let before = retextured(visuals, updates.drop_last());
        changed(
            before,
            updates.last().0,
            |v: Visual<T>| Visual { content: v.content.holding(updates.last().1), ..v },
        )
    }
}

/// Whether a visual has none of the identities.
pub open spec fn none_of<T>(ids: Seq<VisualId>) -> spec_fn(Visual<T>) -> bool {
    |v: Visual<T>| !ids.contains(v.id)
}

impl<T, P, S> LookingGlass<T, P, S> {
    /// The visuals that are to be removed belong to no toplevel and to no
    /// producer any more.
    pub open spec fn consistent(&self, pass: &RenderPass<T>) -> bool {
        &&& pass.index <= self.producers@.len()
        &&& forall|r: int, i: int|
            0 <= r < pass.removed@.len() && 0 <= i < self.producers@.len() ==> (
            #[trigger] pass.removed@[r]) != (#[trigger] self.producers@[i]).0
        &&& forall|r: int, i: int|
            0 <= r < pass.removed@.len() && 0 <= i < self.toplevels@.len() ==> (
            #[trigger] self.toplevels@[i]).visual_id != Some(#[trigger] pass.removed@[r])
    }

    /// Reads the clock and begins a frame at that time; the first producer is
    /// asked first.
    pub fn begin_render(&mut self) -> (pass: RenderPass<T>)
        ensures
            pass.started == final(self).perf.clock.latest,
            pass.index == 0,
            pass.updates@ == Seq::<(VisualId, T)>::empty(),
            pass.removed@ == Seq::<VisualId>::empty(),
            *final(self) == (LookingGlass {
                perf: old(self).perf.at(pass.started).begun(pass.started),
                ..*old(self)
            }),
            final(self).consistent(&pass),
            old(self).well_formed() ==> final(self).well_formed(),
    {
        let now = self.perf.clock.read();
        self.begin_render_at(now)
    }

    /// Begins a frame at `now`; the first producer is asked first.
    pub fn begin_render_at(&mut self, now: Reading) -> (pass: RenderPass<T>)
        ensures
            pass.started == now,
            pass.index == 0,
            pass.updates@ == Seq::<(VisualId, T)>::empty(),
            pass.removed@ == Seq::<VisualId>::empty(),
            *final(self) == (LookingGlass { perf: old(self).perf.begun(now), ..*old(self) }),
            final(self).consistent(&pass),
            old(self).well_formed() ==> final(self).well_formed(),
    {
        self.perf.begin_frame_at(now);
        RenderPass { started: now, index: 0, updates: Vec::new(), removed: Vec::new() }
    }

    /// Takes over what the producer that was asked has said, and how long it
    /// took: a new frame is kept for its visual, a finished producer leaves.
    pub fn producer_result(
        &mut self,
        pass: &mut RenderPass<T>,
        result: &FrameResult,
        texture: Option<T>,
        elapsed_ns: u64,
    )
        requires
            old(pass).index < old(self).producers.len(),
            result.renewed() ==> texture is Some,
        ensures
            final(pass).started == old(pass).started,
            final(pass).index == index_after(old(pass).index as int, result is Finished),
            final(pass).updates@ == if result.renewed() {
                old(pass).updates@.push(
                    (old(self).producers@[old(pass).index as int].0, texture->0),
                )
            } else {
                old(pass).updates@
            },
            final(pass).removed@ == if result is Finished {
                old(pass).removed@.push(old(self).producers@[old(pass).index as int].0)
            } else {
                old(pass).removed@
            },
            final(self).producers@ == producers_after(
                old(self).producers@,
                old(pass).index as int,
                result is Finished,
            ),
            *final(self) == (LookingGlass {
                producers: final(self).producers,
                perf: perf_after(old(self).perf, *result, elapsed_ns),
                ..*old(self)
            }),
            old(self).well_formed() ==> final(self).well_formed(),
            old(self).well_formed() && old(self).consistent(old(pass)) ==> final(self).consistent(
                final(pass)),
    {
        let id = self.producers[pass.index].0;
        match result {
            FrameResult::Updated => {
                self.perf.record_stage(PipelineStage::ProducerUpdate, elapsed_ns);
                if let Some(t) = texture {
                    pass.updates.push((id, t));
                }
                pass.index += 1;
            },
            FrameResult::Unchanged => {
                self.perf.record_stage(PipelineStage::ProducerUpdate, elapsed_ns);
                self.perf.record_dropped();
                pass.index += 1;
            },
            FrameResult::Resized(_, _) => {
                self.perf.record_stage(PipelineStage::ProducerUpdate, elapsed_ns);
                if let Some(t) = texture {
                    pass.updates.push((id, t));
                }
                pass.index += 1;
            },
            FrameResult::Error(_) => {
                pass.index += 1;
            },
            FrameResult::Finished => {
                pass.removed.push(id);
                self.producers.swap_remove(pass.index);
            },
        }
    }

    /// Gives the new textures to their visuals, in the order in which they
    /// came.
    pub fn copy_textures(&mut self, pass: &mut RenderPass<T>)
        ensures
            final(self).scene.visuals@ == retextured(old(self).scene.visuals@, old(pass).updates@),
            final(self).scene.selected_id == old(self).scene.selected_id,
            final(self).scene.focused_id == old(self).scene.focused_id,
            final(self).scene.same_targets(&old(self).scene),
            final(pass).updates@ == Seq::<(VisualId, T)>::empty(),
            *final(pass) == (RenderPass { updates: final(pass).updates, ..*old(pass) }),
            *final(self) == (LookingGlass { scene: final(self).scene, ..*old(self) }),
            old(self).well_formed() ==> final(self).well_formed(),
    {
        let ghost updates = pass.updates@;
        let ghost mut done: int = 0;
        proof {
            assert(updates.skip(0) =~= updates);
            assert(updates.take(0) =~= Seq::empty());
        }
        while pass.updates.len() > 0
            invariant
                0 <= done <= updates.len(),
                updates == old(pass).updates@,
                pass.updates@ == updates.skip(done),
                *pass == (RenderPass { updates: pass.updates, ..*old(pass) }),
                self.scene.visuals@ == retextured(old(self).scene.visuals@, updates.take(done)),
                self.scene.same_targets(&old(self).scene),
                *self == (LookingGlass { scene: self.scene, ..*old(self) }),
                old(self).well_formed() ==> self.well_formed(),
            decreases pass.updates@.len(),
        {
            let ghost before = *self;
            let (id, texture) = pass.updates.remove(0);
            self.scene.replace_texture(id, texture);
            proof {
                lemma_same_identities(before, *self);
                assert(updates.take(done + 1).drop_last() =~= updates.take(done));
                assert(updates.take(done + 1).last() == updates[done]);
                assert(pass.updates@ =~= updates.skip(done + 1));
                done = done + 1;
            }
        }
        proof {
            assert(updates.take(done) =~= updates);
        }
    }

    /// Removes the visuals whose producer has finished.
    pub fn remove_finished(&mut self, pass: &RenderPass<T>)
        ensures
            final(self).scene.visuals@ == old(self).scene.visuals@.filter(none_of(pass.removed@)),
            final(self).scene.selected_id == match old(self).scene.selected_id {
                Some(id) if !pass.removed@.contains(id) => Some(id),
                _ => None,
            },
            final(self).scene.focused_id == old(self).scene.focused_id,
            *final(self) == (LookingGlass { scene: final(self).scene, ..*old(self) }),
            old(self).well_formed() && old(self).consistent(pass) ==> final(self).well_formed(),
    {
        let ghost removed = pass.removed@;
        let mut i: usize = 0;
        proof {
            lemma_filter_all(self.scene.visuals@, none_of::<T>(removed.take(0)));
        }
        while i < pass.removed.len()
            invariant
                i <= removed.len(),
                removed == pass.removed@,
                self.scene.visuals@ == old(self).scene.visuals@.filter(
                    none_of(removed.take(i as int)),
                ),
                self.scene.selected_id == match old(self).scene.selected_id {
                    Some(id) if !removed.take(i as int).contains(id) => Some(id),
                    _ => None,
                },
                self.scene.focused_id == old(self).scene.focused_id,
                *self == (LookingGlass { scene: self.scene, ..*old(self) }),
                old(self).well_formed() && old(self).consistent(pass) ==> self.well_formed(),
            decreases removed.len() - i,
        {
            let ghost before = *self;
            let id = pass.removed[i];
            self.scene.remove(id);
            proof {
                let fewer = removed.take(i as int);
                let more = removed.take(i + 1);
                assert(more =~= fewer.push(id));
                assert forall|x: VisualId| more.contains(x) == (fewer.contains(x) || x == id) by {
                    if fewer.contains(x) {
                        let k = choose|k: int| 0 <= k < fewer.len() && fewer[k] == x;
                        assert(more[k] == x);
                    }
                    assert(more[i as int] == id);
                }
                lemma_filter_twice(
                    old(self).scene.visuals@,
                    none_of(fewer),
                    other_than(id),
                    none_of(more),
                );
                lemma_filter_keeps(before.scene.visuals@, id);
                lemma_others_stay_shown(before.scene, self.scene, id);
            }
            i += 1;
        }
        proof {
            assert(removed.take(i as int) =~= removed);
        }
    }

    /// The view that a frame is drawn from: outside the spatial mode the camera
    /// looks straight at the scene from a fixed place; in the spatial mode it
    /// stays where it is.
    pub open spec fn frame_view(&self) -> CameraView {
        let zero = Scalar { bits: 0 };
        if self.spatial_mode {
            self.camera.view()
        } else {
            CameraView {
                position: Point3 { x: zero, y: zero, z: Scalar { bits: FLAT_DISTANCE_BITS } },
                yaw: zero,
                pitch: zero,
            }
        }
    }

    /// Moves the camera to where the frame is drawn from.
    pub fn prepare_camera(&mut self)
        ensures
            final(self).camera.view() == old(self).frame_view(),
            final(self).camera.same_settings(&old(self).camera),
            old(self).spatial_mode ==> final(self).camera.position == old(self).camera.position
                && final(self).camera.yaw == old(self).camera.yaw && final(self).camera.pitch
                == old(self).camera.pitch,
            !old(self).spatial_mode ==> final(self).camera.position.x.bits == 0
                && final(self).camera.position.y.bits == 0 && final(self).camera.position.z.bits
                == FLAT_DISTANCE_BITS && final(self).camera.yaw.bits == 0
                && final(self).camera.pitch.bits == 0,
            final(self).camera.speed == old(self).camera.speed,
            final(self).camera.sensitivity == old(self).camera.sensitivity,
            final(self).camera.zoom_speed == old(self).camera.zoom_speed,
            final(self).camera.bookmarks@ == old(self).camera.bookmarks@,
            *final(self) == (LookingGlass { camera: final(self).camera, ..*old(self) }),
            old(self).well_formed() ==> final(self).well_formed(),
    {
        if !self.spatial_mode {
            let zero = Scalar::from_bits(0);
            self.camera.position = Point3 {
                x: zero,
                y: zero,
                z: Scalar::from_bits(FLAT_DISTANCE_BITS),
            };
            self.camera.yaw = zero;
            self.camera.pitch = zero;
        }
    }

    /// Bringing the scene up to date, at these times, leads to `after`: the new
    /// textures have gone to their visuals, the visuals of finished producers
    /// and the selection of one of them are gone, the visuals that are left
    /// stand where the layout puts them, the camera is prepared, and the time
    /// that was spent is recorded. Nothing else has changed.
    pub open spec fn renders(
        &self,
        pass: &RenderPass<T>,
        layout: Seq<(VisualId, Transform3D)>,
        times: RenderTimes,
        after: &LookingGlass<T, P, S>,
    ) -> bool {
        &&& after.scene.visuals@ == rearranged(
            retextured(self.scene.visuals@, pass.updates@).filter(none_of(pass.removed@)),
            layout,
        )
        &&& after.scene.selected_id == match self.scene.selected_id {
            Some(id) if !pass.removed@.contains(id) => Some(id),
            _ => None,
        }
        &&& after.scene.focused_id == self.scene.focused_id
        &&& after.camera.view() == self.frame_view()
        &&& after.camera.same_settings(&self.camera)
        &&& after.perf == updated_stages(self.perf, times)
        &&& *after == (LookingGlass {
            scene: after.scene,
            camera: after.camera,
            perf: after.perf,
            ..*self
        })
    }

    /// Brings the scene up to date when every producer was asked: the new
    /// textures go to their visuals, the visuals of finished producers go, the
    /// others are placed as the layout says, and the camera is prepared. How
    /// long the first two took is recorded.
    ///
    /// `layout` lists the visuals that the layout mode moves, with their
    /// places.
    pub fn render(
        &mut self,
        pass: &mut RenderPass<T>,
        layout: &Vec<(VisualId, Transform3D)>,
    ) -> (times: RenderTimes)
        ensures
            old(self).renders(old(pass), layout@, times, final(self)),
            old(self).spatial_mode ==> final(self).camera.position == old(self).camera.position
                && final(self).camera.yaw == old(self).camera.yaw && final(self).camera.pitch
                == old(self).camera.pitch,
            !old(self).spatial_mode ==> final(self).camera.position.x.bits == 0
                && final(self).camera.position.y.bits == 0 && final(self).camera.position.z.bits
                == FLAT_DISTANCE_BITS && final(self).camera.yaw.bits == 0
                && final(self).camera.pitch.bits == 0,
            final(self).camera.speed == old(self).camera.speed,
            final(self).camera.sensitivity == old(self).camera.sensitivity,
            final(self).camera.zoom_speed == old(self).camera.zoom_speed,
            final(self).camera.bookmarks@ == old(self).camera.bookmarks@,
            final(self).scene.focused_id == old(self).scene.focused_id,
            final(self).scene.selected_id is Some ==> final(self).scene.selected_id
                == old(self).scene.selected_id && !old(pass).removed@.contains(
                final(self).scene.selected_id->0,
            ),
            old(self).scene.selected_id matches Some(id) ==> !old(pass).removed@.contains(id)
                ==> final(self).scene.selected_id == Some(id),
            final(self).toplevels == old(self).toplevels,
            final(self).producers == old(self).producers,
            final(self).spatial_mode == old(self).spatial_mode,
            final(pass).updates@ == Seq::<(VisualId, T)>::empty(),
            *final(pass) == (RenderPass { updates: final(pass).updates, ..*old(pass) }),
            old(self).well_formed() && old(self).consistent(old(pass))
                ==> final(self).well_formed(),
    {
        let begun = self.perf.clock.read();
        self.copy_textures(pass);
        let copied = self.perf.clock.read();
        self.perf.record_stage(PipelineStage::TexCopy, copied.nanos_from(begun));
        self.remove_finished(pass);
        let removed = self.perf.clock.read();
        self.perf.record_stage(PipelineStage::Remove, removed.nanos_from(copied));
        let ghost before = *self;
        self.scene.arrange(layout);
        proof {
            lemma_rearranged(before.scene.visuals@, layout@);
            lemma_same_identities(before, *self);
        }
        self.prepare_camera();
        RenderTimes { begun, copied, removed }
    }

    /// Ends the frame when it was drawn, at the time that the clock shows: the
    /// time since its beginning is recorded, and once per interval the averages
    /// come back.
    pub fn end_render(&mut self, pass: &RenderPass<T>) -> (report: Option<PerfReport>)
        ensures
            ({
                let now = final(self).perf.clock.latest;
                let timed = with_total(old(self).perf.at(now), now.since(pass.started));
                &&& *final(self) == (LookingGlass { perf: timed.recorded(now), ..*old(self) })
                &&& report == timed.recorded_report(now)
            }),
            old(self).well_formed() ==> final(self).well_formed(),
    {
        let now = self.perf.clock.read();
        self.perf.record_stage(PipelineStage::Total, now.nanos_from(pass.started));
        self.perf.record_frame_at(now)
    }

    /// How the scene is projected: in perspective in the spatial mode.
    pub fn projection(&self) -> (p: Projection)
        ensures
            p == if self.spatial_mode {
                Projection::Perspective
            } else {
                Projection::Orthographic
            },
    {
        if self.spatial_mode {
            Projection::Perspective
        } else {
            Projection::Orthographic
        }
    }
}

/// A filter that everything passes changes nothing.
proof fn lemma_filter_all<A>(s: Seq<A>, p: spec_fn(A) -> bool)
    requires
        forall|i: int| 0 <= i < s.len() ==> p(#[trigger] s[i]),
    ensures
        s.filter(p) == s,
    decreases s.len(),
{
    reveal(Seq::filter);
    if s.len() > 0 {
        lemma_filter_all(s.drop_last(), p);
        assert(s.drop_last().push(s.last()) =~= s);
    }
}

/// Filtering twice is filtering by both.
proof fn lemma_filter_twice<A>(
    s: Seq<A>,
    p: spec_fn(A) -> bool,
    q: spec_fn(A) -> bool,
    both: spec_fn(A) -> bool,
)
    requires
        forall|a: A| #[trigger] both(a) == (p(a) && q(a)),
    ensures
        s.filter(p).filter(q) == s.filter(both),
    decreases s.len(),
{
    reveal(Seq::filter);
    if s.len() > 0 {
        let front = s.drop_last();
        lemma_filter_twice(front, p, q, both);
        assert(both(s.last()) == (p(s.last()) && q(s.last())));
        if p(s.last()) {
            assert(s.filter(p).drop_last() =~= front.filter(p));
        }
    }
}

/// The spatial mode is a matter of presentation: states that differ only in
/// their mode and camera lead to the same visuals, the same selection and
/// focus, and the same windows and producers.
pub proof fn law_mode_is_presentation<T, P, S>(
    one: LookingGlass<T, P, S>,
    other: LookingGlass<T, P, S>,
    pass: RenderPass<T>,
    layout: Seq<(VisualId, Transform3D)>,
    one_times: RenderTimes,
    other_times: RenderTimes,
    one_after: LookingGlass<T, P, S>,
    other_after: LookingGlass<T, P, S>,
)
    requires
        other == (LookingGlass {
            spatial_mode: other.spatial_mode,
            camera: other.camera,
            ..one
        }),
        one.renders(&pass, layout, one_times, &one_after),
        other.renders(&pass, layout, other_times, &other_after),
    ensures
        one_after.scene.visuals@ == other_after.scene.visuals@,
        one_after.scene.same_targets(&other_after.scene),
        one_after.toplevels == other_after.toplevels,
        one_after.producers == other_after.producers,
        one_after.toplevels == one.toplevels,
{
}

/// Asking one producer takes it, and no other, from those that are still to be
/// asked, and leaves those that were asked before as they were.
pub proof fn law_asking_takes_one_producer<P>(
    producers: Seq<(VisualId, P)>,
    i: int,
    finished: bool,
)
    requires
        0 <= i < producers.len(),
    ensures
        ({
            let after = producers_after(producers, i, finished);
            let next = index_after(i, finished);
            &&& 0 <= next <= after.len()
            &&& after.skip(next).to_multiset().insert(producers[i])
                == producers.skip(i).to_multiset()
            &&& after.len() - next == producers.len() - i - 1
            &&& after.take(i) == producers.take(i)
        }),
{
    broadcast use vstd::seq_lib::group_to_multiset_ensures;

    let after = producers_after(producers, i, finished);
    let rest = producers.skip(i);
    assert(rest.remove(0) =~= producers.skip(i + 1));
    assert(rest.remove(0).to_multiset() =~= rest.to_multiset().remove(rest[0]));
    assert(rest.to_multiset().contains(rest[0])) by {
        assert(rest.contains(rest[0]));
    }
    assert(producers.skip(i + 1).to_multiset().insert(producers[i]) =~= rest.to_multiset());
    if finished {
        let others = producers.skip(i + 1);
        if i + 1 < producers.len() {
            let last = producers.last();
            assert(others =~= others.drop_last().push(last));
            assert(others.to_multiset() =~= others.drop_last().to_multiset().insert(last));
            let moved = after.skip(i);
            assert(moved =~= seq![last] + others.drop_last());
            vstd::seq_lib::lemma_multiset_commutative(seq![last], others.drop_last());
            vstd::seq_lib::lemma_multiset_commutative(others.drop_last(), seq![last]);
            assert(moved.to_multiset() =~= others.to_multiset());
        } else {
            assert(after.skip(i) =~= others);
        }
    }
    assert(after.take(i) =~= producers.take(i));
}

/// The producers that are asked, in order, when they give these results from
/// producer `i` on.
pub open spec fn asked<P>(
    producers: Seq<(VisualId, P)>,
    i: int,
    results: Seq<FrameResult>,
) -> Seq<(VisualId, P)>
    decreases results.len(),
{
    if results.len() == 0 {
        Seq::empty()
    } else {
        let finished = results.first() is Finished;
        seq![producers[i]] + asked(
            producers_after(producers, i, finished),
            index_after(i, finished),
            results.drop_first(),
        )
    }
}

/// The producers after they gave these results from producer `i` on.
pub open spec fn left_after<P>(
    producers: Seq<(VisualId, P)>,
    i: int,
    results: Seq<FrameResult>,
) -> Seq<(VisualId, P)>
    decreases results.len(),
{
    if results.len() == 0 {
        producers
    } else {
        let finished = results.first() is Finished;
        left_after(
            producers_after(producers, i, finished),
            index_after(i, finished),
            results.drop_first(),
        )
    }
}

/// Of the producers that were asked, those whose result is not that they have
/// finished.
pub open spec fn unfinished<P>(
    producers: Seq<(VisualId, P)>,
    results: Seq<FrameResult>,
) -> Seq<(VisualId, P)>
    decreases results.len(),
{
    if results.len() == 0 {
        Seq::empty()
    } else {
        let rest = unfinished(producers.drop_first(), results.drop_first());
        if results.first() is Finished {
            rest
        } else {
            seq![producers.first()] + rest
        }
    }
}

/// In a frame every producer is asked exactly once: over as many results as
/// there are producers, those that are asked are those that were there at the
/// beginning. Those that are left in the end are those that did not say that
/// they have finished.
pub proof fn law_each_producer_is_asked_once<P>(
    producers: Seq<(VisualId, P)>,
    results: Seq<FrameResult>,
)
    requires
        results.len() == producers.len(),
    ensures
        asked(producers, 0, results).len() == producers.len(),
        asked(producers, 0, results).to_multiset() == producers.to_multiset(),
        left_after(producers, 0, results).to_multiset() == unfinished(
            asked(producers, 0, results),
            results,
        ).to_multiset(),
{
    lemma_run(producers, 0, results);
    assert(producers.skip(0) =~= producers);
    assert(producers.take(0) + unfinished(asked(producers, 0, results), results) =~= unfinished(
        asked(producers, 0, results),
        results,
    ));
}

/// From producer `i` on, every producer is asked once, and those that did not
/// finish follow those that were asked before.
proof fn lemma_run<P>(producers: Seq<(VisualId, P)>, i: int, results: Seq<FrameResult>)
    requires
        0 <= i,
        results.len() == producers.len() - i,
    ensures
        asked(producers, i, results).len() == results.len(),
        asked(producers, i, results).to_multiset() == producers.skip(i).to_multiset(),
        left_after(producers, i, results) == producers.take(i) + unfinished(
            asked(producers, i, results),
            results,
        ),
    decreases results.len(),
{
    broadcast use vstd::seq_lib::group_to_multiset_ensures;

    if results.len() == 0 {
        assert(producers.skip(i) =~= Seq::empty());
        assert(producers.take(i) =~= producers);
        assert(producers + Seq::<(VisualId, P)>::empty() =~= producers);
    } else {
        let finished = results.first() is Finished;
        let after = producers_after(producers, i, finished);
        let next = index_after(i, finished);
        let rest = results.drop_first();
        let one = seq![producers[i]];
        let others = asked(after, next, rest);
        let all = asked(producers, i, results);
        law_asking_takes_one_producer(producers, i, finished);
        lemma_run(after, next, rest);
        assert(all.drop_first() =~= others);
        assert(all.first() == producers[i]);
        vstd::seq_lib::lemma_multiset_commutative(one, others);
        assert(one =~= Seq::empty().push(producers[i]));
        assert(all.to_multiset() =~= others.to_multiset().insert(producers[i]));
        if !finished {
            assert(after.take(next) =~= producers.take(i) + one);
            assert(left_after(producers, i, results) =~= producers.take(i) + (one + unfinished(
                others,
                rest,
            )));
        }
    }
}

/// After the finished producers' visuals were removed, none of them is left
/// and every other visual is.
pub proof fn law_finished_visuals_are_gone<T>(visuals: Seq<Visual<T>>, removed: Seq<VisualId>)
    ensures
        ({
            let left = visuals.filter(none_of(removed));
            &&& forall|k: int| 0 <= k < left.len() ==> !removed.contains((#[trigger] left[k]).id)
            &&& forall|k: int|
                0 <= k < visuals.len() && !removed.contains((#[trigger] visuals[k]).id)
                    ==> left.contains(visuals[k])
        }),
{
    broadcast use vstd::seq_lib::group_filter_ensures;

    let left = visuals.filter(none_of(removed));
    assert forall|k: int| 0 <= k < left.len() implies !removed.contains(
        (#[trigger] left[k]).id,
    ) by {
        assert(none_of::<T>(removed)(left[k]));
    }
    assert forall|k: int|
        0 <= k < visuals.len() && !removed.contains((#[trigger] visuals[k]).id) implies left.contains(
        visuals[k],
    ) by {
        assert(none_of::<T>(removed)(visuals[k]));
    }
}

/// The last texture that came for a visual, if any did.
pub open spec fn latest<T>(updates: Seq<(VisualId, T)>, id: VisualId) -> Option<T>
    decreases updates.len(),
{
    if updates.len() == 0 {
        None
    } else if updates.last().0 == id {
        Some(updates.last().1)
    } else {
        latest(updates.drop_last(), id)
    }
}

/// New textures change nothing of a visual but its texture, and leave visuals
/// alone for which there is none. Of several for one visual the last stays.
pub proof fn law_new_textures_arrive<T>(visuals: Seq<Visual<T>>, updates: Seq<(VisualId, T)>, k: int)
    requires
        distinct_ids(visuals),
        0 <= k < visuals.len(),
    ensures
        retextured(visuals, updates).len() == visuals.len(),
        retextured(visuals, updates)[k] == match latest(updates, visuals[k].id) {
            Some(texture) => Visual { content: visuals[k].content.holding(texture), ..visuals[k] },
            None => visuals[k],
        },
    decreases updates.len(),
{
    if updates.len() > 0 {
        let earlier = updates.drop_last();
        let before = retextured(visuals, earlier);
        let id = updates.last().0;
        assert forall|m: int| 0 <= m < visuals.len() implies before.len() == visuals.len()
            && #[trigger] before[m].id == visuals[m].id by {
            law_new_textures_arrive(visuals, earlier, m);
        }
        law_new_textures_arrive(visuals, earlier, k);
        if visuals[k].id == id {
            lemma_present(before, k, id);
            let i = first_with_id(before, id);
            assert(before[i].id == before[k].id);
            assert(visuals[i].id == visuals[k].id);
        }
    }
}

/// The bit pattern of the camera's distance outside the spatial mode stands
/// for 500, in units of two to the power of -149.
pub proof fn law_flat_distance()
    ensures
        (Scalar { bits: FLAT_DISTANCE_BITS }).units() == 500 * pow2(149),
{
    lemma2_to64();
    lemma_units_of_pattern(Scalar { bits: FLAT_DISTANCE_BITS }, 500, 15);
}

/// In the spatial mode a frame is drawn from where the camera is, and outside
/// it from 500 in front of the middle, straight ahead.
pub proof fn law_frame_is_drawn_from<T, P, S>(state: LookingGlass<T, P, S>)
    ensures
        state.spatial_mode ==> state.frame_view().position == state.camera.position
            && state.frame_view().yaw == state.camera.yaw && state.frame_view().pitch
            == state.camera.pitch,
        !state.spatial_mode ==> state.frame_view().position.x.bits == 0
            && state.frame_view().position.y.bits == 0 && state.frame_view().position.z.units()
            == 500 * pow2(149) && state.frame_view().yaw.bits == 0
            && state.frame_view().pitch.bits == 0,
{
    law_flat_distance();
}

/// What a frame does to everything but the visuals: the camera stays in the
/// spatial mode, the focus stays, the selection goes only with its visual, and
/// windows, producers, receivers of input and settings are left alone.
pub proof fn law_frame_leaves_the_rest<T, P, S>(
    before: LookingGlass<T, P, S>,
    pass: RenderPass<T>,
    layout: Seq<(VisualId, Transform3D)>,
    times: RenderTimes,
    after: LookingGlass<T, P, S>,
)
    requires
        before.renders(&pass, layout, times, &after),
    ensures
        before.spatial_mode ==> after.camera.position == before.camera.position
            && after.camera.yaw == before.camera.yaw && after.camera.pitch == before.camera.pitch,
        after.camera.speed == before.camera.speed,
        after.camera.sensitivity == before.camera.sensitivity,
        after.camera.zoom_speed == before.camera.zoom_speed,
        after.camera.bookmarks@ == before.camera.bookmarks@,
        after.scene.focused_id == before.scene.focused_id,
        before.scene.selected_id is None ==> after.scene.selected_id is None,
        before.scene.selected_id matches Some(id) ==> after.scene.selected_id == (
        if pass.removed@.contains(id) {
            None
        } else {
            Some(id)
        }),
        after.toplevels == before.toplevels,
        after.producers == before.producers,
        after.input_sinks == before.input_sinks,
        after.ids == before.ids,
        after.spatial_mode == before.spatial_mode,
        after.layout_mode == before.layout_mode,
        after.window_size == before.window_size,
        after.last_mouse == before.last_mouse,
        after.dragging == before.dragging,
        after.perf.stages.tex_copy == (before.perf.stages.tex_copy + times.copied.since(
            times.begun,
        )) % (u64::MAX + 1),
        after.perf.stages.remove == (before.perf.stages.remove + times.removed.since(times.copied))
            % (u64::MAX + 1),
        after.perf.frame_count == before.perf.frame_count,
        after.perf.frame_start == before.perf.frame_start,
        after.perf.total_drops == before.perf.total_drops,
{
}

/// A visual that nothing finishes, retextures or places comes out of a frame as
/// it went in, and every visual that comes out was there before.
pub proof fn law_frame_keeps_untouched_visuals<T, P, S>(
    before: LookingGlass<T, P, S>,
    pass: RenderPass<T>,
    layout: Seq<(VisualId, Transform3D)>,
    times: RenderTimes,
    after: LookingGlass<T, P, S>,
    k: int,
)
    requires
        before.renders(&pass, layout, times, &after),
        0 <= k < before.scene.visuals@.len(),
        !pass.removed@.contains(before.scene.visuals@[k].id),
        forall|j: int|
            0 <= j < pass.updates@.len() ==> (#[trigger] pass.updates@[j]).0
                != before.scene.visuals@[k].id,
        forall|j: int|
            0 <= j < layout.len() ==> (#[trigger] layout[j]).0 != before.scene.visuals@[k].id,
    ensures
        after.scene.visuals@.contains(before.scene.visuals@[k]),
{
    let visuals = before.scene.visuals@;
    let textured = retextured(visuals, pass.updates@);
    let left = textured.filter(none_of(pass.removed@));
    lemma_unmentioned_texture(visuals, pass.updates@, k);
    law_finished_visuals_are_gone(textured, pass.removed@);
    assert(left.contains(textured[k]));
    let m = choose|m: int| 0 <= m < left.len() && left[m] == textured[k];
    lemma_unmentioned_place(left, layout, m);
    assert(after.scene.visuals@[m] == visuals[k]);
}

/// The visual of a finished producer does not come out of a frame.
pub proof fn law_frame_drops_finished_visuals<T, P, S>(
    before: LookingGlass<T, P, S>,
    pass: RenderPass<T>,
    layout: Seq<(VisualId, Transform3D)>,
    times: RenderTimes,
    after: LookingGlass<T, P, S>,
    m: int,
)
    requires
        before.renders(&pass, layout, times, &after),
        0 <= m < after.scene.visuals@.len(),
    ensures
        !pass.removed@.contains(after.scene.visuals@[m].id),
{
    let textured = retextured(before.scene.visuals@, pass.updates@);
    let left = textured.filter(none_of(pass.removed@));
    law_finished_visuals_are_gone(textured, pass.removed@);
    lemma_rearranged(left, layout);
    assert(after.scene.visuals@[m].id == left[m].id);
}

proof fn lemma_unmentioned_texture<T>(
    visuals: Seq<Visual<T>>,
    updates: Seq<(VisualId, T)>,
    k: int,
)
    requires
        0 <= k < visuals.len(),
        forall|j: int| 0 <= j < updates.len() ==> (#[trigger] updates[j]).0 != visuals[k].id,
    ensures
        retextured(visuals, updates).len() == visuals.len(),
        retextured(visuals, updates)[k] == visuals[k],
    decreases updates.len(),
{
    if updates.len() > 0 {
        let earlier = updates.drop_last();
        assert forall|j: int| 0 <= j < earlier.len() implies (#[trigger] earlier[j]).0
            != visuals[k].id by {
            assert(earlier[j] == updates[j]);
        }
        lemma_unmentioned_texture(visuals, earlier, k);
        assert(updates[updates.len() - 1].0 != visuals[k].id);
    }
}

proof fn lemma_unmentioned_place<T>(
    visuals: Seq<Visual<T>>,
    places: Seq<(VisualId, Transform3D)>,
    k: int,
)
    requires
        0 <= k < visuals.len(),
        forall|j: int| 0 <= j < places.len() ==> (#[trigger] places[j]).0 != visuals[k].id,
    ensures
        rearranged(visuals, places).len() == visuals.len(),
        rearranged(visuals, places)[k] == visuals[k],
    decreases places.len(),
{
    if places.len() > 0 {
        let earlier = places.drop_last();
        assert forall|j: int| 0 <= j < earlier.len() implies (#[trigger] earlier[j]).0
            != visuals[k].id by {
            assert(earlier[j] == places[j]);
        }
        lemma_unmentioned_place(visuals, earlier, k);
        assert(places[places.len() - 1].0 != visuals[k].id);
    }
}

/// The last texture that came for a visual is the one that it shows, whatever
/// came before; its content stays of its kind, and the rest of it is the same.
pub proof fn law_last_texture_counts<T>(
    visuals: Seq<Visual<T>>,
    updates: Seq<(VisualId, T)>,
    k: int,
    j: int,
)
    requires
        distinct_ids(visuals),
        0 <= k < visuals.len(),
        0 <= j < updates.len(),
        updates[j].0 == visuals[k].id,
        forall|l: int| j < l < updates.len() ==> (#[trigger] updates[l]).0 != visuals[k].id,
    ensures
        ({
            let v = retextured(visuals, updates)[k];
            &&& visuals[k].content is WaylandSurface ==> v.content == VisualContent::WaylandSurface(
                updates[j].1,
            )
            &&& visuals[k].content is ExternalTexture ==> v.content
                == VisualContent::ExternalTexture(updates[j].1)
            &&& v.id == visuals[k].id
            &&& v.geometry == visuals[k].geometry
            &&& v.transform == visuals[k].transform
            &&& v.selected == visuals[k].selected
            &&& v.content_state == visuals[k].content_state
            &&& v.window_state == visuals[k].window_state
        }),
{
    law_new_textures_arrive(visuals, updates, k);
    lemma_latest(updates, visuals[k].id, j);
}

proof fn lemma_latest<T>(updates: Seq<(VisualId, T)>, id: VisualId, j: int)
    requires
        0 <= j < updates.len(),
        updates[j].0 == id,
        forall|l: int| j < l < updates.len() ==> (#[trigger] updates[l]).0 != id,
    ensures
        latest(updates, id) == Some(updates[j].1),
    decreases updates.len(),
{
    if j < updates.len() - 1 {
        assert(updates[updates.len() - 1].0 != id);
        let front = updates.drop_last();
        assert forall|l: int| j < l < front.len() implies (#[trigger] front[l]).0 != id by {
            assert(front[l] == updates[l]);
        }
        lemma_latest(front, id, j);
    }
}

/// A visual for which no texture came is left alone.
pub proof fn law_visual_without_texture_stays<T>(
    visuals: Seq<Visual<T>>,
    updates: Seq<(VisualId, T)>,
    k: int,
)
    requires
        0 <= k < visuals.len(),
        forall|j: int| 0 <= j < updates.len() ==> (#[trigger] updates[j]).0 != visuals[k].id,
    ensures
        retextured(visuals, updates).len() == visuals.len(),
        retextured(visuals, updates)[k] == visuals[k],
{
    lemma_unmentioned_texture(visuals, updates, k);
}

/// Removing goes through the visuals in order: one that is to go is left out,
/// and one that is not comes after those that are left.
pub proof fn law_removal_keeps_the_order<T>(
    visuals: Seq<Visual<T>>,
    removed: Seq<VisualId>,
    last: Visual<T>,
)
    ensures
        Seq::<Visual<T>>::empty().filter(none_of(removed)) == Seq::<Visual<T>>::empty(),
        removed.contains(last.id) ==> visuals.push(last).filter(none_of(removed))
            == visuals.filter(none_of(removed)),
        !removed.contains(last.id) ==> visuals.push(last).filter(none_of(removed))
            == visuals.filter(none_of(removed)).push(last),
{
    reveal(Seq::filter);
    assert(visuals.push(last).drop_last() =~= visuals);
}

/// A producer that has not finished stays, and the next one is asked; one that
/// has finished goes, the last one takes its place, and is asked there.
pub proof fn law_producers_by_places<P>(producers: Seq<(VisualId, P)>, i: int, k: int)
    requires
        0 <= i < producers.len(),
        0 <= k < producers.len(),
    ensures
        producers_after(producers, i, false) == producers,
        index_after(i, false) == i + 1,
        producers_after(producers, i, true).len() == producers.len() - 1,
        index_after(i, true) == i,
        k < producers.len() - 1 && k != i ==> producers_after(producers, i, true)[k]
            == producers[k],
        i < producers.len() - 1 ==> producers_after(producers, i, true)[i]
            == producers[producers.len() - 1],
{
}

/// What an answer of a producer does to the statistics: its time counts where
/// it had a frame to show, an unchanged frame counts as dropped, and an error
/// or an end counts as nothing.
pub proof fn law_answers_in_the_statistics(perf: PerfStats, result: FrameResult, elapsed_ns: u64)
    ensures
        ({
            let after = perf_after(perf, result, elapsed_ns);
            &&& result is Updated || result is Resized || result is Unchanged
                ==> after.stages.producer_update == (perf.stages.producer_update + elapsed_ns) % (
            u64::MAX + 1)
            &&& result is Error || result is Finished ==> after == perf
            &&& result is Unchanged ==> after.consecutive_drops == (perf.consecutive_drops + 1) % (
            u64::MAX + 1) && after.total_drops == (perf.total_drops + 1) % (u64::MAX + 1)
            &&& !(result is Unchanged) ==> after.consecutive_drops == perf.consecutive_drops
                && after.total_drops == perf.total_drops
            &&& after.stages.tex_copy == perf.stages.tex_copy
            &&& after.stages.remove == perf.stages.remove
            &&& after.stages.total == perf.stages.total
            &&& after.frame_count == perf.frame_count
            &&& after.frame_start == perf.frame_start
            &&& after.last_log == perf.last_log
            &&& after.total_frame_time_ns == perf.total_frame_time_ns
            &&& after.frame_count_since_log == perf.frame_count_since_log
            &&& after.clock == perf.clock
        }),
{
}

/// Bringing the scene up to date records the time from its beginning to the
/// copies, and from there to the removals, each in its place.
pub proof fn law_update_times_are_recorded(perf: PerfStats, times: RenderTimes, total_ns: u64)
    requires
        times.begun.nanos <= times.copied.nanos <= times.removed.nanos,
        times.removed.nanos - times.begun.nanos <= u64::MAX,
    ensures
        ({
            let after = updated_stages(perf, times);
            &&& after.stages.tex_copy == (perf.stages.tex_copy + (times.copied.nanos
                - times.begun.nanos)) % (u64::MAX + 1)
            &&& after.stages.remove == (perf.stages.remove + (times.removed.nanos
                - times.copied.nanos)) % (u64::MAX + 1)
            &&& after.stages.producer_update == perf.stages.producer_update
            &&& after.stages.total == perf.stages.total
            &&& after.clock.latest == times.removed
            &&& after.frame_start == perf.frame_start
            &&& after.frame_count == perf.frame_count
            &&& after.total_frame_time_ns == perf.total_frame_time_ns
            &&& after.total_drops == perf.total_drops
            &&& after.consecutive_drops == perf.consecutive_drops
        }),
        with_total(perf, total_ns).stages.total == (perf.stages.total + total_ns) % (u64::MAX + 1),
        with_total(perf, total_ns).stages.tex_copy == perf.stages.tex_copy,
        with_total(perf, total_ns).stages.remove == perf.stages.remove,
        with_total(perf, total_ns).stages.producer_update == perf.stages.producer_update,
        with_total(perf, total_ns) == (PerfStats {
            stages: with_total(perf, total_ns).stages,
            ..perf
        }),
{
}

/// A frame in the making is consistent: what is to be removed belongs to no
/// producer that is left and to no window.
pub proof fn law_pass_invariant<T, P, S>(
    state: LookingGlass<T, P, S>,
    pass: RenderPass<T>,
    r: int,
    i: int,
)
    requires
        state.consistent(&pass),
        0 <= r < pass.removed@.len(),
    ensures
        0 <= i < state.producers@.len() ==> state.producers@[i].0 != pass.removed@[r],
        0 <= i < state.toplevels@.len() ==> state.toplevels@[i].visual_id != Some(
            pass.removed@[r],
        ),
{
}

/// A visual that is not to go comes out of a frame with the last texture that
/// came for it, and with its size, its mark and its states as they were.
pub proof fn law_frame_shows_new_textures<T, P, S>(
    before: LookingGlass<T, P, S>,
    pass: RenderPass<T>,
    layout: Seq<(VisualId, Transform3D)>,
    times: RenderTimes,
    after: LookingGlass<T, P, S>,
    k: int,
    j: int,
)
    requires
        before.scene.well_formed(),
        before.renders(&pass, layout, times, &after),
        0 <= k < before.scene.visuals@.len(),
        !pass.removed@.contains(before.scene.visuals@[k].id),
        0 <= j < pass.updates@.len(),
        pass.updates@[j].0 == before.scene.visuals@[k].id,
        forall|l: int|
            j < l < pass.updates@.len() ==> (#[trigger] pass.updates@[l]).0
                != before.scene.visuals@[k].id,
    ensures
        exists|m: int|
            0 <= m < after.scene.visuals@.len() && {
                let v = #[trigger] after.scene.visuals@[m];
                let u = before.scene.visuals@[k];
                &&& v.id == u.id
                &&& u.content is WaylandSurface ==> v.content == VisualContent::WaylandSurface(
                    pass.updates@[j].1,
                )
                &&& u.content is ExternalTexture ==> v.content == VisualContent::ExternalTexture(
                    pass.updates@[j].1,
                )
                &&& v.geometry == u.geometry
                &&& v.selected == u.selected
                &&& v.content_state == u.content_state
                &&& v.window_state == u.window_state
            },
{
    let visuals = before.scene.visuals@;
    let textured = retextured(visuals, pass.updates@);
    let left = textured.filter(none_of(pass.removed@));
    law_last_texture_counts(visuals, pass.updates@, k, j);
    law_new_textures_arrive(visuals, pass.updates@, k);
    law_finished_visuals_are_gone(textured, pass.removed@);
    assert(left.contains(textured[k]));
    let m = choose|m: int| 0 <= m < left.len() && left[m] == textured[k];
    lemma_rearranged(left, layout);
    assert(after.scene.visuals@[m].id == visuals[k].id);
}

/// A visual that is not to go comes out of a frame at the last place that the
/// layout has for it.
pub proof fn law_frame_places_visuals<T, P, S>(
    before: LookingGlass<T, P, S>,
    pass: RenderPass<T>,
    layout: Seq<(VisualId, Transform3D)>,
    times: RenderTimes,
    after: LookingGlass<T, P, S>,
    k: int,
    j: int,
)
    requires
        before.scene.well_formed(),
        before.renders(&pass, layout, times, &after),
        0 <= k < before.scene.visuals@.len(),
        !pass.removed@.contains(before.scene.visuals@[k].id),
        0 <= j < layout.len(),
        layout[j].0 == before.scene.visuals@[k].id,
        forall|l: int|
            j < l < layout.len() ==> (#[trigger] layout[l]).0 != before.scene.visuals@[k].id,
    ensures
        exists|m: int|
            0 <= m < after.scene.visuals@.len() && {
                let v = #[trigger] after.scene.visuals@[m];
                &&& v.id == before.scene.visuals@[k].id
                &&& v.transform == layout[j].1
                &&& v.geometry == before.scene.visuals@[k].geometry
            },
{
    let visuals = before.scene.visuals@;
    let textured = retextured(visuals, pass.updates@);
    let left = textured.filter(none_of(pass.removed@));
    lemma_left_in_order(visuals, pass);
    law_new_textures_arrive(visuals, pass.updates@, k);
    law_finished_visuals_are_gone(textured, pass.removed@);
    assert(left.contains(textured[k]));
    let m = choose|m: int| 0 <= m < left.len() && left[m] == textured[k];
    law_last_place_counts(left, layout, m, j);
    lemma_rearranged(left, layout);
    assert(after.scene.visuals@[m].transform == layout[j].1);
}

/// A frame leaves the order of the visuals: of any two that come out of it, the
/// one in front was in front before.
pub proof fn law_frame_keeps_the_order<T, P, S>(
    before: LookingGlass<T, P, S>,
    pass: RenderPass<T>,
    layout: Seq<(VisualId, Transform3D)>,
    times: RenderTimes,
    after: LookingGlass<T, P, S>,
    i: int,
    j: int,
)
    requires
        before.scene.well_formed(),
        before.renders(&pass, layout, times, &after),
        0 <= i < j < after.scene.visuals@.len(),
    ensures
        exists|k: int, l: int|
            0 <= k < l < before.scene.visuals@.len() && #[trigger] before.scene.visuals@[k].id
                == after.scene.visuals@[i].id && #[trigger] before.scene.visuals@[l].id
                == after.scene.visuals@[j].id,
{
    let visuals = before.scene.visuals@;
    let textured = retextured(visuals, pass.updates@);
    let left = textured.filter(none_of(pass.removed@));
    lemma_rearranged(left, layout);
    let (k, l) = lemma_filter_order(textured, none_of(pass.removed@), i, j);
    if visuals.len() > 0 {
        law_new_textures_arrive(visuals, pass.updates@, 0);
    } else {
        lemma_no_visuals(visuals, pass.updates@);
    }
    law_new_textures_arrive(visuals, pass.updates@, k);
    law_new_textures_arrive(visuals, pass.updates@, l);
    assert(after.scene.visuals@[i].id == left[i].id);
    assert(after.scene.visuals@[j].id == left[j].id);
    assert(visuals[k].id == after.scene.visuals@[i].id);
    assert(visuals[l].id == after.scene.visuals@[j].id);
}

/// What a filter leaves comes in the order in which it was.
proof fn lemma_filter_order<A>(s: Seq<A>, p: spec_fn(A) -> bool, i: int, j: int) -> (r: (int, int))
    requires
        0 <= i <= j < s.filter(p).len(),
    ensures
        0 <= r.0 <= r.1 < s.len(),
        i < j ==> r.0 < r.1,
        s[r.0] == s.filter(p)[i],
        s[r.1] == s.filter(p)[j],
    decreases s.len(),
{
    reveal(Seq::filter);
    let front = s.drop_last();
    if j < front.filter(p).len() {
        lemma_filter_order(front, p, i, j)
    } else if i < j {
        (lemma_filter_order(front, p, i, i).0, s.len() - 1)
    } else {
        (s.len() - 1, s.len() - 1)
    }
}

/// The visuals that are left have distinct identities.
proof fn lemma_left_in_order<T>(visuals: Seq<Visual<T>>, pass: RenderPass<T>)
    requires
        distinct_ids(visuals),
    ensures
        distinct_ids(retextured(visuals, pass.updates@).filter(none_of(pass.removed@))),
{
    let textured = retextured(visuals, pass.updates@);
    let left = textured.filter(none_of(pass.removed@));
    assert forall|i: int, j: int| 0 <= i < j < left.len() implies (#[trigger] left[i]).id != (
    #[trigger] left[j]).id by {
        let (k, l) = lemma_filter_order(textured, none_of(pass.removed@), i, j);
        if visuals.len() > 0 {
            law_new_textures_arrive(visuals, pass.updates@, 0);
        } else {
            lemma_no_visuals(visuals, pass.updates@);
        }
        law_new_textures_arrive(visuals, pass.updates@, k);
        law_new_textures_arrive(visuals, pass.updates@, l);
        assert(visuals[k].id != visuals[l].id);
    }
}

proof fn lemma_no_visuals<T>(visuals: Seq<Visual<T>>, updates: Seq<(VisualId, T)>)
    requires
        visuals.len() == 0,
    ensures
        retextured(visuals, updates).len() == 0,
    decreases updates.len(),
{
    if updates.len() > 0 {
        lemma_no_visuals(visuals, updates.drop_last());
    }
}

} // verus!
