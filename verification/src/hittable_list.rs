//! A scene: a list of objects that resolves the nearest hit among them.
use crate::ray::Ray;
use crate::scalar::Scalar;
use crate::sphere::lemma_nearest_in_window_joined;
use crate::sphere::lemma_nearest_in_window_narrowed;
use crate::sphere::nearest_in_window;
use crate::sphere::HitRecord;
use crate::sphere::Hittable;
use vstd::prelude::*;

verus! {

/// The objects of a scene, in the order in which they were added.
pub struct HittableList {
    pub objects: Vec<Box<dyn Hittable>>,
}

/// The hits that `ray` makes on the objects, object after object.
pub open spec fn all_intersections(objects: Seq<Box<dyn Hittable>>, ray: &Ray) -> Seq<HitRecord>
    decreases objects.len(),
{
    if objects.len() == 0 {
        Seq::empty()
    } else {
        all_intersections(objects.drop_last(), ray) + objects.last().intersections(ray)
    }
}

/// The hit that the object at `index` reports by itself for the window.
pub open spec fn object_hit(
    objects: Seq<Box<dyn Hittable>>,
    ray: &Ray,
    t_min: Scalar,
    t_max: Scalar,
    index: int,
) -> Option<HitRecord> {
    nearest_in_window(objects[index].intersections(ray), t_min, t_max)
}

/// Whether `hit` is what the object at `index` reports by itself, no object
/// reports a hit at a smaller parameter, and no earlier object one at the
/// same.
pub open spec fn is_nearest_object_hit(
    objects: Seq<Box<dyn Hittable>>,
    ray: &Ray,
    t_min: Scalar,
    t_max: Scalar,
    index: int,
    hit: HitRecord,
) -> bool {
    &&& 0 <= index < objects.len()
    &&& object_hit(objects, ray, t_min, t_max, index) == Some(hit)
    &&& forall|j: int|
        0 <= j < objects.len() ==> (#[trigger] object_hit(objects, ray, t_min, t_max, j) matches Some(
            other,
        ) ==> hit.t.raw <= other.t.raw)
    &&& forall|j: int|
        0 <= j < index ==> (#[trigger] object_hit(objects, ray, t_min, t_max, j) matches Some(other)
            ==> hit.t.raw < other.t.raw)
}

/// The hit of a scene is the hit that one of its objects reports by itself:
/// the one at the least parameter among all of them, and from the earliest
/// object among those that share it. A scene has no hit exactly when none of
/// its objects has one.
pub proof fn lemma_scene_hit_is_nearest(
    objects: Seq<Box<dyn Hittable>>,
    ray: &Ray,
    t_min: Scalar,
    t_max: Scalar,
)
    ensures
        match nearest_in_window(all_intersections(objects, ray), t_min, t_max) {
            Some(hit) => exists|i: int| is_nearest_object_hit(objects, ray, t_min, t_max, i, hit),
            None => forall|j: int|
                0 <= j < objects.len() ==> (#[trigger] object_hit(
                    objects,
                    ray,
                    t_min,
                    t_max,
                    j,
                )) is None,
        },
    decreases objects.len(),
{
    if objects.len() > 0 {
        let init = objects.drop_last();
        let last_index = objects.len() - 1;
        lemma_scene_hit_is_nearest(init, ray, t_min, t_max);
        lemma_nearest_in_window_joined(
            all_intersections(init, ray),
            objects.last().intersections(ray),
            t_min,
            t_max,
        );
        let before = nearest_in_window(all_intersections(init, ray), t_min, t_max);
        assert forall|j: int| 0 <= j < init.len() implies object_hit(init, ray, t_min, t_max, j)
            == object_hit(objects, ray, t_min, t_max, j) by {
            assert(init[j] == objects[j]);
        }
        match nearest_in_window(all_intersections(objects, ray), t_min, t_max) {
            Some(hit) => {
                if before == Some(hit) {
                    let i = choose|i: int| is_nearest_object_hit(init, ray, t_min, t_max, i, hit);
                    assert(object_hit(init, ray, t_min, t_max, i) == object_hit(
                        objects,
                        ray,
                        t_min,
                        t_max,
                        i,
                    ));
                    assert forall|j: int| 0 <= j < objects.len() implies (#[trigger] object_hit(
                        objects,
                        ray,
                        t_min,
                        t_max,
                        j,
                    ) matches Some(other) ==> hit.t.raw <= other.t.raw) by {
                        if j < init.len() {
                            assert(object_hit(init, ray, t_min, t_max, j) == object_hit(
                                objects,
                                ray,
                                t_min,
                                t_max,
                                j,
                            ));
                        }
                    }
                    assert forall|j: int| 0 <= j < i implies (#[trigger] object_hit(
                        objects,
                        ray,
                        t_min,
                        t_max,
                        j,
                    ) matches Some(other) ==> hit.t.raw < other.t.raw) by {
                        assert(object_hit(init, ray, t_min, t_max, j) == object_hit(
                            objects,
                            ray,
                            t_min,
                            t_max,
                            j,
                        ));
                    }
                    assert(is_nearest_object_hit(objects, ray, t_min, t_max, i, hit));
                } else {
                    assert(object_hit(objects, ray, t_min, t_max, last_index) == Some(hit));
                    assert forall|j: int| 0 <= j < last_index implies (#[trigger] object_hit(
                        objects,
                        ray,
                        t_min,
                        t_max,
                        j,
                    ) matches Some(other) ==> hit.t.raw < other.t.raw) by {
                        assert(object_hit(init, ray, t_min, t_max, j) == object_hit(
                            objects,
                            ray,
                            t_min,
                            t_max,
                            j,
                        ));
                        if before is Some {
                            let i = choose|i: int|
                                is_nearest_object_hit(init, ray, t_min, t_max, i, before.unwrap());
                        }
                    }
                    assert(is_nearest_object_hit(objects, ray, t_min, t_max, last_index, hit));
                }
            },
            None => {
                assert forall|j: int| 0 <= j < objects.len() implies (#[trigger] object_hit(
                    objects,
                    ray,
                    t_min,
                    t_max,
                    j,
                )) is None by {
                    if j < init.len() {
                        assert(object_hit(init, ray, t_min, t_max, j) == object_hit(
                            objects,
                            ray,
                            t_min,
                            t_max,
                            j,
                        ));
                    }
                }
            },
        }
    }
}

/// Whether every object of `first` is an object of `second`.
pub open spec fn each_object_in(
    first: Seq<Box<dyn Hittable>>,
    second: Seq<Box<dyn Hittable>>,
) -> bool {
    forall|i: int|
        0 <= i < first.len() ==> exists|j: int|
            0 <= j < second.len() && second[j] == #[trigger] first[i]
}

/// Two scenes of the same objects, in whatever order, have a hit for the same
/// rays and windows, and at the same parameter.
pub proof fn lemma_scene_hit_ignores_order(
    first: Seq<Box<dyn Hittable>>,
    second: Seq<Box<dyn Hittable>>,
    ray: &Ray,
    t_min: Scalar,
    t_max: Scalar,
)
    requires
        each_object_in(first, second),
        each_object_in(second, first),
    ensures
        match (
            nearest_in_window(all_intersections(first, ray), t_min, t_max),
            nearest_in_window(all_intersections(second, ray), t_min, t_max),
        ) {
            (Some(f), Some(s)) => f.t == s.t,
            (None, None) => true,
            _ => false,
        },
{
    lemma_scene_hit_is_nearest(first, ray, t_min, t_max);
    lemma_scene_hit_is_nearest(second, ray, t_min, t_max);
    let in_first = nearest_in_window(all_intersections(first, ray), t_min, t_max);
    let in_second = nearest_in_window(all_intersections(second, ray), t_min, t_max);
    if in_first is Some {
        let i = choose|i: int| is_nearest_object_hit(first, ray, t_min, t_max, i, in_first.unwrap());
        let j = choose|j: int| 0 <= j < second.len() && second[j] == first[i];
        assert(object_hit(second, ray, t_min, t_max, j) == Some(in_first.unwrap()));
    }
    if in_second is Some {
        let i = choose|i: int|
            is_nearest_object_hit(second, ray, t_min, t_max, i, in_second.unwrap());
        let j = choose|j: int| 0 <= j < first.len() && first[j] == second[i];
        assert(object_hit(first, ray, t_min, t_max, j) == Some(in_second.unwrap()));
    }
}

impl View for HittableList {
    type V = Seq<Box<dyn Hittable>>;

    open spec fn view(&self) -> Seq<Box<dyn Hittable>> {
        self.objects@
    }
}

impl HittableList {
    /// A scene without objects.
    pub fn new() -> (list: HittableList)
        ensures
            list@ == Seq::<Box<dyn Hittable>>::empty(),
    {
        HittableList { objects: Vec::new() }
    }

    /// Appends `object` to the scene.
    pub fn add(&mut self, object: Box<dyn Hittable>)
        ensures
            final(self)@ == old(self)@.push(object),
    {
        self.objects.push(object);
    }

    /// Removes every object.
    pub fn clear(&mut self)
        ensures
            final(self)@ == Seq::<Box<dyn Hittable>>::empty(),
    {
        self.objects.clear();
    }
}

impl Hittable for HittableList {
    open spec fn intersections(&self, ray: &Ray) -> Seq<HitRecord> {
        all_intersections(self@, ray)
    }

    /// Asks each object in turn, with the nearest hit so far as the upper
    /// end of its window.
    fn hit(&self, ray: &Ray, t_min: Scalar, t_max: Scalar, rec: &mut HitRecord) -> (found: bool) {
        let mut hit_anything = false;
        let mut closest_so_far = t_max;
        let mut i: usize = 0;
        while i < self.objects.len()
            invariant
                i <= self.objects.len(),
                closest_so_far.raw <= t_max.raw,
                hit_anything == nearest_in_window(
                    all_intersections(self@.take(i as int), ray),
                    t_min,
                    t_max,
                ).is_some(),
                hit_anything ==> Some(*rec) == nearest_in_window(
                    all_intersections(self@.take(i as int), ray),
                    t_min,
                    t_max,
                ) && closest_so_far == rec.t,
                !hit_anything ==> *rec == *old(rec) && closest_so_far == t_max,
            decreases self.objects.len() - i,
        {
            proof {
                let seen = self@.take(i as int + 1);
                assert(seen.drop_last() == self@.take(i as int));
                assert(seen.last() == self@[i as int]);
                lemma_nearest_in_window_joined(
                    all_intersections(self@.take(i as int), ray),
                    self@[i as int].intersections(ray),
                    t_min,
                    t_max,
                );
                lemma_nearest_in_window_narrowed(
                    self@[i as int].intersections(ray),
                    t_min,
                    t_max,
                    closest_so_far,
                );
                crate::sphere::lemma_nearest_in_window(
                    self@[i as int].intersections(ray),
                    t_min,
                    t_max,
                );
            }
            if self.objects[i].hit(ray, t_min, closest_so_far, rec) {
                hit_anything = true;
                closest_so_far = rec.t;
            }
            i += 1;
        }
        proof {
            assert(self@.take(i as int) == self@);
        }
        hit_anything
    }
}

} // verus!
