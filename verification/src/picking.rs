//! Picking: which visual a ray from the screen meets first.
//!
//! A visual is a unit square around the origin of its own frame. The renderer
//! side carries the ray into that frame and reports where it meets the plane
//! of the square; here it is decided whether that is a hit and which hit
//! counts.

use crate::scalar::Scalar;
use crate::scene::{Scene, Visual, VisualId, HALF_BITS, PARALLEL_BITS};
use vstd::arithmetic::power2::pow2;
use vstd::prelude::*;

verus! {

/// What is known of one ray and one visual.
#[derive(Debug, Clone, Copy, PartialEq)]
pub struct RayProbe {
    /// How fast the ray approaches the plane of the visual.
    pub slope: Scalar,
    /// How far along the ray the plane is met, negative behind the eye.
    pub t: Scalar,
    /// Where the plane is met, in the frame of the visual.
    pub hit_x: Scalar,
    pub hit_y: Scalar,
    /// The distance from the eye to that point, in world space.
    pub distance: Scalar,
}

impl RayProbe {
    /// The ray runs along the plane of the visual.
    pub open spec fn parallel(self) -> bool {
        self.slope.absolute().lt(Scalar { bits: PARALLEL_BITS })
    }

    /// The plane lies behind the eye.
    pub open spec fn behind(self) -> bool {
        self.t.lt(Scalar { bits: 0 })
    }

    /// The plane is met beside the square.
    pub open spec fn beside(self) -> bool {
        let half = Scalar { bits: HALF_BITS };
        half.lt(self.hit_x.absolute()) || half.lt(self.hit_y.absolute())
    }

    /// The ray meets the visual.
    pub open spec fn hit(self) -> bool {
        !self.parallel() && !self.behind() && !self.beside()
    }

    /// Whether the ray meets the visual.
    pub fn is_hit(&self) -> (r: bool)
        ensures
            r == self.hit(),
    {
        let half = Scalar::from_bits(HALF_BITS);
        if self.slope.abs().less_than(Scalar::from_bits(PARALLEL_BITS)) {
            return false;
        }
        if self.t.less_than(Scalar::from_bits(0)) {
            return false;
        }
        !(half.less_than(self.hit_x.abs()) || half.less_than(self.hit_y.abs()))
    }
}

/// Among the first `n` items, number `i` is the one to pick.
///
/// It is a hit. If its distance is a number, no later hit is nearer or has a
/// distance that is not a number, and every earlier hit is farther, unless a
/// hit whose distance is not a number stands at it or between the two. If its
/// distance is not a number, it is the last hit.
pub open spec fn is_pick(items: Seq<(VisualId, RayProbe)>, n: int, i: int) -> bool {
    &&& 0 <= i < n <= items.len()
    &&& items[i].1.hit()
    &&& forall|j: int|
        i < j < n && (#[trigger] items[j]).1.hit() ==> items[j].1.distance.ge(items[i].1.distance)
    &&& !items[i].1.distance.nan() ==> forall|j: int|
        0 <= j < i && (#[trigger] items[j]).1.hit() ==> {
            ||| items[i].1.distance.lt(items[j].1.distance)
            ||| exists|k: int|
                j <= k < i && (#[trigger] items[k]).1.hit() && items[k].1.distance.nan()
        }
}

/// Picks the closest hit. Of hits at the same distance, the first one counts.
pub fn pick_visual_items(items: &Vec<(VisualId, RayProbe)>) -> (r: Option<(VisualId, Scalar)>)
    ensures
        r is None <==> forall|i: int|
            0 <= i < items@.len() ==> !(#[trigger] items@[i]).1.hit(),
        r matches Some(pick) ==> exists|i: int| #[trigger]
            is_pick(items@, items@.len() as int, i) && pick == (
                items@[i].0,
                items@[i].1.distance,
            ),
        r matches Some(pick) ==> exists|i: int|
            0 <= i < items@.len() && (#[trigger] items@[i]).1.hit() && items@[i].0 == pick.0
                && items@[i].1.distance == pick.1,
        r is Some && (forall|k: int|
            0 <= k < items@.len() && (#[trigger] items@[k]).1.hit()
                ==> !items@[k].1.distance.nan()) ==> forall|k: int|
            0 <= k < items@.len() && (#[trigger] items@[k]).1.hit() ==> (r->0).1.units()
                <= items@[k].1.distance.units(),
{
    let mut closest: Option<(VisualId, Scalar)> = None;
    let ghost mut at: int = 0;
    let mut n: usize = 0;
    while n < items.len()
        invariant
            n <= items@.len(),
            closest is None <==> forall|i: int| 0 <= i < n ==> !(#[trigger] items@[i]).1.hit(),
            closest matches Some(pick) ==> is_pick(items@, n as int, at) && pick == (
                items@[at].0,
                items@[at].1.distance,
            ),
        decreases items@.len() - n,
    {
        let (id, probe) = items[n];
        let ghost before = at;
        if probe.is_hit() {
            let farther: bool = match closest {
                Some((_, d)) => probe.distance.at_least(d),
                None => false,
            };
            if !farther {
                proof {
                    if closest is Some && !probe.distance.nan() {
                        assert forall|j: int| 0 <= j < n && (#[trigger] items@[j]).1.hit() implies {
                            ||| probe.distance.lt(items@[j].1.distance)
                            ||| exists|k: int|
                                j <= k < n && (#[trigger] items@[k]).1.hit()
                                    && items@[k].1.distance.nan()
                        } by {
                            assert(items@[before].1.hit());
                            if items@[before].1.distance.nan() {
                                assert(j <= before);
                            } else if j < before && !items@[before].1.distance.lt(
                                items@[j].1.distance,
                            ) {
                                let k = choose|k: int|
                                    j <= k < before && (#[trigger] items@[k]).1.hit()
                                        && items@[k].1.distance.nan();
                                assert(items@[k].1.hit() && items@[k].1.distance.nan());
                            }
                        }
                    }
                    at = n as int;
                }
                closest = Some((id, probe.distance));
            }
        }
        n += 1;
    }
    closest
}

/// Picks among visuals, given what is known of the ray and each of them.
pub fn pick_visual<T>(visuals: &Vec<Visual<T>>, probes: &Vec<RayProbe>) -> (r: Option<
    (VisualId, Scalar),
>)
    requires
        probes@.len() == visuals@.len(),
    ensures
        r is None <==> forall|i: int| 0 <= i < probes@.len() ==> !(#[trigger] probes@[i]).hit(),
        r matches Some(pick) ==> exists|i: int| #[trigger]
            is_pick(paired(visuals@, probes@), visuals@.len() as int, i) && pick == (
                visuals@[i].id,
                probes@[i].distance,
            ),
        r matches Some(pick) ==> exists|i: int|
            0 <= i < probes@.len() && (#[trigger] probes@[i]).hit() && visuals@[i].id == pick.0
                && probes@[i].distance == pick.1,
        r is Some && (forall|k: int|
            0 <= k < probes@.len() && (#[trigger] probes@[k]).hit() ==> !probes@[k].distance.nan())
            ==> forall|k: int|
            0 <= k < probes@.len() && (#[trigger] probes@[k]).hit() ==> (r->0).1.units()
                <= probes@[k].distance.units(),
{
    let mut items: Vec<(VisualId, RayProbe)> = Vec::new();
    let mut i: usize = 0;
    while i < visuals.len()
        invariant
            i <= visuals@.len(),
            probes@.len() == visuals@.len(),
            items@ == paired(visuals@, probes@).take(i as int),
        decreases visuals@.len() - i,
    {
        items.push((visuals[i].id, probes[i]));
        i += 1;
        proof {
            assert(items@ =~= paired(visuals@, probes@).take(i as int));
        }
    }
    proof {
        assert(items@ =~= paired(visuals@, probes@));
        assert forall|k: int| 0 <= k < probes@.len() implies (#[trigger] probes@[k]).hit()
            == items@[k].1.hit() by {}
    }
    let r = pick_visual_items(&items);
    proof {
        assert forall|k: int| 0 <= k < items@.len() implies #[trigger] items@[k] == (
            visuals@[k].id,
            probes@[k],
        ) by {}
        if r is Some {
            let i = choose|i: int|
                0 <= i < items@.len() && (#[trigger] items@[i]).1.hit() && items@[i].0 == (r->0).0
                    && items@[i].1.distance == (r->0).1;
            assert(probes@[i].hit());
            if forall|k: int|
                0 <= k < probes@.len() && (#[trigger] probes@[k]).hit()
                    ==> !probes@[k].distance.nan() {
                assert forall|k: int| 0 <= k < items@.len() && (
                #[trigger] items@[k]).1.hit() implies !items@[k].1.distance.nan() by {
                    assert(probes@[k].hit());
                }
                assert forall|k: int| 0 <= k < probes@.len() && (
                #[trigger] probes@[k]).hit() implies (r->0).1.units()
                    <= probes@[k].distance.units() by {
                    assert(items@[k].1.hit());
                }
            }
        }
    }
    r
}

/// Each visual's identity with what is known of the ray and it.
pub open spec fn paired<T>(visuals: Seq<Visual<T>>, probes: Seq<RayProbe>) -> Seq<
    (VisualId, RayProbe),
> {
    Seq::new(visuals.len(), |i: int| (visuals[i].id, probes[i]))
}

impl<T> Scene<T> {
    /// Picks the closest visual under a ray.
    pub fn pick(&self, probes: &Vec<RayProbe>) -> (r: Option<(VisualId, Scalar)>)
        requires
            probes@.len() == self.visuals@.len(),
        ensures
            r is None <==> forall|i: int|
                0 <= i < probes@.len() ==> !(#[trigger] probes@[i]).hit(),
            r matches Some(pick) ==> exists|i: int| #[trigger]
                is_pick(paired(self.visuals@, probes@), self.visuals@.len() as int, i) && pick == (
                    self.visuals@[i].id,
                    probes@[i].distance,
                ),
            r matches Some(pick) ==> exists|i: int|
                0 <= i < probes@.len() && (#[trigger] probes@[i]).hit() && self.visuals@[i].id
                    == pick.0 && probes@[i].distance == pick.1,
            r is Some && (forall|k: int|
                0 <= k < probes@.len() && (#[trigger] probes@[k]).hit()
                    ==> !probes@[k].distance.nan()) ==> forall|k: int|
                0 <= k < probes@.len() && (#[trigger] probes@[k]).hit() ==> (r->0).1.units()
                    <= probes@[k].distance.units(),
    {
        pick_visual(&self.visuals, probes)
    }
}

/// There is at most one item to pick.
pub proof fn law_pick_is_unique(items: Seq<(VisualId, RayProbe)>, i: int, j: int)
    requires
        is_pick(items, items.len() as int, i),
        is_pick(items, items.len() as int, j),
    ensures
        i == j,
{
    if i != j {
        let a = if i < j { i } else { j };
        let b = if i < j { j } else { i };
        assert(items[a].1.hit() && items[b].1.distance.ge(items[a].1.distance));
        let k = choose|k: int|
            a <= k < b && (#[trigger] items[k]).1.hit() && items[k].1.distance.nan();
        assert(items[k].1.distance.nan());
    }
}

/// Where the distance of every hit is a number, no hit is nearer than the one
/// that is picked, and no hit before it in the list is as near.
pub proof fn law_pick_is_closest(items: Seq<(VisualId, RayProbe)>, i: int, j: int)
    requires
        is_pick(items, items.len() as int, i),
        forall|k: int|
            0 <= k < items.len() && (#[trigger] items[k]).1.hit() ==> !items[k].1.distance.nan(),
        0 <= j < items.len(),
        items[j].1.hit(),
    ensures
        items[i].1.distance.units() <= items[j].1.distance.units(),
        j < i ==> items[i].1.distance.units() < items[j].1.distance.units(),
{
}

/// Among visuals, the one that is picked is met by the ray, no visual that the
/// ray meets is nearer, and none further back in the scene is as near; all of
/// that where the distances are numbers.
pub proof fn law_picked_visual_is_nearest<T>(
    visuals: Seq<Visual<T>>,
    probes: Seq<RayProbe>,
    picked: int,
    other: int,
)
    requires
        probes.len() == visuals.len(),
        is_pick(paired(visuals, probes), visuals.len() as int, picked),
        forall|k: int|
            0 <= k < probes.len() && (#[trigger] probes[k]).hit() ==> !probes[k].distance.nan(),
        0 <= other < visuals.len(),
        probes[other].hit(),
    ensures
        0 <= picked < visuals.len(),
        probes[picked].hit(),
        probes[picked].distance.units() <= probes[other].distance.units(),
        other < picked ==> probes[picked].distance.units() < probes[other].distance.units(),
        paired(visuals, probes)[picked].0 == visuals[picked].id,
{
    let items = paired(visuals, probes);
    assert forall|k: int| 0 <= k < items.len() implies #[trigger] items[k] == (
        visuals[k].id,
        probes[k],
    ) by {}
    assert(items[other].1.hit());
    assert(items[picked].1.hit());
    assert(!probes[picked].distance.nan());
    if other < picked && !items[picked].1.distance.lt(items[other].1.distance) {
        let k = choose|k: int|
            other <= k < picked && (#[trigger] items[k]).1.hit() && items[k].1.distance.nan();
        assert(probes[k].hit());
    }
}

/// A visual that the ray meets, nearer than every other and first among equals,
/// is the one that is picked.
pub proof fn law_nearest_visual_is_picked<T>(
    visuals: Seq<Visual<T>>,
    probes: Seq<RayProbe>,
    nearest: int,
)
    requires
        probes.len() == visuals.len(),
        0 <= nearest < visuals.len(),
        probes[nearest].hit(),
        forall|k: int|
            0 <= k < probes.len() && (#[trigger] probes[k]).hit() ==> !probes[k].distance.nan(),
        forall|k: int|
            0 <= k < probes.len() && (#[trigger] probes[k]).hit()
                ==> probes[nearest].distance.units() <= probes[k].distance.units(),
        forall|k: int|
            0 <= k < nearest && (#[trigger] probes[k]).hit() ==> probes[nearest].distance.units()
                < probes[k].distance.units(),
    ensures
        is_pick(paired(visuals, probes), visuals.len() as int, nearest),
{
    let items = paired(visuals, probes);
    assert forall|k: int| 0 <= k < items.len() implies #[trigger] items[k] == (
        visuals[k].id,
        probes[k],
    ) by {}
    assert forall|j: int| 0 <= j < items.len() && (#[trigger] items[j]).1.hit() implies
        probes[j].hit() by {}
}

/// A ray meets a visual unless it runs along its plane, by less than 1e-8, or
/// meets the plane behind the eye, or more than one half beside the middle;
/// what is not a number hinders nothing.
pub proof fn law_hit_by_numbers(p: RayProbe)
    ensures
        p.hit() <==> {
            &&& p.slope.nan() || p.slope.units() >= 11258999 * pow2(99) || p.slope.units() <= -(
            11258999 * pow2(99))
            &&& p.t.nan() || p.t.units() >= 0
            &&& p.hit_x.nan() || -pow2(148) <= p.hit_x.units() <= pow2(148)
            &&& p.hit_y.nan() || -pow2(148) <= p.hit_y.units() <= pow2(148)
        },
{
    crate::scene::law_scene_numbers();
    crate::scalar::law_absolute_value(p.slope);
    crate::scalar::law_absolute_value(p.hit_x);
    crate::scalar::law_absolute_value(p.hit_y);
    crate::scalar::lemma_zero_below_positive(Scalar { bits: HALF_BITS });
}

/// Of hits whose distance is not a number, one at the end of all hits is
/// picked; and if the distance of what is picked is not a number, no hit
/// follows it.
pub proof fn law_last_hit_without_distance(items: Seq<(VisualId, RayProbe)>, picked: int, last: int)
    requires
        is_pick(items, items.len() as int, picked),
        0 <= last < items.len(),
        items[last].1.hit(),
        forall|k: int| last < k < items.len() ==> !(#[trigger] items[k]).1.hit(),
    ensures
        items[last].1.distance.nan() ==> picked == last,
        items[picked].1.distance.nan() ==> picked == last,
{
    assert(items[picked].1.hit());
    if picked < last {
        assert(items[last].1.distance.ge(items[picked].1.distance));
    }
}

} // verus!
