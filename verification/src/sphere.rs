//! The contract that every scene object meets, the record of a hit, and the
//! sphere.
use crate::ray::Ray;
use crate::scalar::lemma_over_monotone;
use crate::scalar::Scalar;
use crate::vec3::lemma_dot_commutes;
use crate::vec3::lemma_dot_negated;
use crate::vec3::Vec3;
use core::ops::Neg;
use vstd::prelude::*;

verus! {

/// Where and how a ray meets a surface.
///
/// `t` is the ray's parameter at `point`. `normal` points against the ray:
/// it is the surface's outward normal when `front_face` is true, which says
/// that the ray comes from outside, and the negation of it otherwise.
#[derive(Clone, Copy, Debug, PartialEq, Eq, Structural)]
pub struct HitRecord {
    pub point: Vec3,
    pub normal: Vec3,
    pub t: Scalar,
    pub front_face: bool,
}

/// Whether `t` lies strictly between `t_min` and `t_max`.
pub open spec fn in_window(t: Scalar, t_min: Scalar, t_max: Scalar) -> bool {
    t_min.raw < t.raw < t_max.raw
}

/// The nearer of two hits. On equal parameters `first` is kept.
pub open spec fn nearer(first: Option<HitRecord>, second: Option<HitRecord>) -> Option<HitRecord> {
    match (first, second) {
        (Some(f), Some(s)) => if s.t.raw < f.t.raw {
            second
        } else {
            first
        },
        (Some(_), None) => first,
        (None, _) => second,
    }
}

/// `hit` if it lies below `bound`, and no hit otherwise.
pub open spec fn narrowed(hit: Option<HitRecord>, bound: Scalar) -> Option<HitRecord> {
    match hit {
        Some(h) => if h.t.raw < bound.raw {
            Some(h)
        } else {
            None
        },
        None => None,
    }
}

/// Among the hits whose parameter lies strictly between `t_min` and `t_max`,
/// the one with the least parameter, and the earliest of those that share
/// it; none where no hit lies in the window.
pub open spec fn nearest_in_window(hits: Seq<HitRecord>, t_min: Scalar, t_max: Scalar) -> Option<
    HitRecord,
>
    decreases hits.len(),
{
    if hits.len() == 0 {
        None
    } else {
        nearer(
            nearest_in_window(hits.drop_last(), t_min, t_max),
            if in_window(hits.last().t, t_min, t_max) {
                Some(hits.last())
            } else {
                None
            },
        )
    }
}

/// Whether `hit` stands at `index` in `hits`, inside the window, with no hit
/// of the window at a smaller parameter and none before it at the same.
pub open spec fn is_nearest_at(
    hits: Seq<HitRecord>,
    t_min: Scalar,
    t_max: Scalar,
    index: int,
    hit: HitRecord,
) -> bool {
    &&& 0 <= index < hits.len()
    &&& hits[index] == hit
    &&& in_window(hit.t, t_min, t_max)
    &&& forall|k: int|
        0 <= k < hits.len() && in_window((#[trigger] hits[k]).t, t_min, t_max) ==> hit.t.raw
            <= hits[k].t.raw
    &&& forall|k: int|
        0 <= k < index && in_window((#[trigger] hits[k]).t, t_min, t_max) ==> hit.t.raw
            < hits[k].t.raw
}

/// What `nearest_in_window` picks is one of the hits, lies inside the window
/// and is the nearest there; it picks none exactly when no hit lies inside.
pub proof fn lemma_nearest_in_window(hits: Seq<HitRecord>, t_min: Scalar, t_max: Scalar)
    ensures
        match nearest_in_window(hits, t_min, t_max) {
            Some(hit) => exists|i: int| is_nearest_at(hits, t_min, t_max, i, hit),
            None => forall|k: int|
                0 <= k < hits.len() ==> !in_window((#[trigger] hits[k]).t, t_min, t_max),
        },
    decreases hits.len(),
{
    if hits.len() > 0 {
        let init = hits.drop_last();
        lemma_nearest_in_window(init, t_min, t_max);
        let before = nearest_in_window(init, t_min, t_max);
        match nearest_in_window(hits, t_min, t_max) {
            Some(hit) => {
                if before == Some(hit) {
                    let i = choose|i: int| is_nearest_at(init, t_min, t_max, i, hit);
                    assert(init[i] == hits[i]);
                    assert forall|k: int|
                        0 <= k < hits.len() && in_window(
                            (#[trigger] hits[k]).t,
                            t_min,
                            t_max,
                        ) implies hit.t.raw <= hits[k].t.raw by {
                        if k < init.len() {
                            assert(init[k] == hits[k]);
                        }
                    }
                    assert forall|k: int|
                        0 <= k < i && in_window((#[trigger] hits[k]).t, t_min, t_max) implies hit.t.raw
                        < hits[k].t.raw by {
                        assert(init[k] == hits[k]);
                    }
                    assert(is_nearest_at(hits, t_min, t_max, i, hit));
                } else {
                    let last_index = hits.len() - 1;
                    assert(hits[last_index] == hit);
                    assert forall|k: int|
                        0 <= k < last_index && in_window(
                            (#[trigger] hits[k]).t,
                            t_min,
                            t_max,
                        ) implies hit.t.raw < hits[k].t.raw by {
                        assert(init[k] == hits[k]);
                        if before is Some {
                            let i = choose|i: int|
                                is_nearest_at(init, t_min, t_max, i, before.unwrap());
                        }
                    }
                    assert(is_nearest_at(hits, t_min, t_max, last_index, hit));
                }
            },
            None => {
                assert forall|k: int| 0 <= k < hits.len() implies !in_window(
                    (#[trigger] hits[k]).t,
                    t_min,
                    t_max,
                ) by {
                    if k < init.len() {
                        assert(init[k] == hits[k]);
                    }
                }
            },
        }
    }
}

/// With a lower upper end the same hit is picked where it is still inside
/// the window, and none otherwise.
pub proof fn lemma_nearest_in_window_narrowed(
    hits: Seq<HitRecord>,
    t_min: Scalar,
    t_max: Scalar,
    bound: Scalar,
)
    requires
        bound.raw <= t_max.raw,
    ensures
        nearest_in_window(hits, t_min, bound) == narrowed(
            nearest_in_window(hits, t_min, t_max),
            bound,
        ),
    decreases hits.len(),
{
    if hits.len() > 0 {
        lemma_nearest_in_window_narrowed(hits.drop_last(), t_min, t_max, bound);
    }
}

/// The nearest hit of two lists joined is the nearer of their nearest hits.
pub proof fn lemma_nearest_in_window_joined(
    first: Seq<HitRecord>,
    second: Seq<HitRecord>,
    t_min: Scalar,
    t_max: Scalar,
)
    ensures
        nearest_in_window(first + second, t_min, t_max) == nearer(
            nearest_in_window(first, t_min, t_max),
            nearest_in_window(second, t_min, t_max),
        ),
    decreases second.len(),
{
    if second.len() == 0 {
        assert(first + second == first);
    } else {
        lemma_nearest_in_window_joined(first, second.drop_last(), t_min, t_max);
        assert((first + second).drop_last() == first + second.drop_last());
        assert((first + second).last() == second.last());
    }
}

/// Of two hits in the order of their parameters, the first is picked where
/// it lies inside the window, else the second where that one does.
pub proof fn lemma_nearest_of_two(first: HitRecord, second: HitRecord, t_min: Scalar, t_max: Scalar)
    requires
        first.t.raw <= second.t.raw,
    ensures
        nearest_in_window(seq![first, second], t_min, t_max) == if in_window(first.t, t_min, t_max) {
            Some(first)
        } else if in_window(second.t, t_min, t_max) {
            Some(second)
        } else {
            None
        },
{
    let both = seq![first, second];
    let one = both.drop_last();
    assert(one.len() == 1 && one.last() == first);
    assert(one.drop_last().len() == 0);
    assert(nearest_in_window(one.drop_last(), t_min, t_max) is None);
    assert(nearest_in_window(one, t_min, t_max) == if in_window(first.t, t_min, t_max) {
        Some(first)
    } else {
        None
    });
    assert(both.last() == second);
}

/// An object that a ray can hit.
///
/// A kind of object says in `intersections` where a ray meets it, and its
/// `hit` finds the nearest of those hits inside a window.
pub trait Hittable {
    /// The hits that `ray` makes on this object, at whatever parameter. A
    /// kind of object that does not say what they are has none.
    open spec fn intersections(&self, ray: &Ray) -> Seq<HitRecord> {
        Seq::empty()
    }

    /// Looks for the hit of `ray` nearest to `t_min` among those strictly
    /// between `t_min` and `t_max`. Fills `rec` with it and returns true
    /// where there is one; leaves `rec` as it was and returns false where
    /// there is none.
    fn hit(&self, ray: &Ray, t_min: Scalar, t_max: Scalar, rec: &mut HitRecord) -> (found: bool)
        ensures
            found == nearest_in_window(self.intersections(ray), t_min, t_max).is_some(),
            found ==> Some(*final(rec)) == nearest_in_window(self.intersections(ray), t_min, t_max),
            !found ==> *final(rec) == *old(rec),
    ;
}

/// A sphere around `center`. A radius that is not positive is accepted as it
/// is.
#[derive(Clone, Copy, Debug, PartialEq, Eq, Structural)]
pub struct Sphere {
    pub center: Vec3,
    pub radius: Scalar,
}

impl HitRecord {
    /// The record of a hit at `point` and parameter `t`, on a surface whose
    /// outward normal there is `outward_normal`.
    pub open spec fn facing(ray: &Ray, point: Vec3, t: Scalar, outward_normal: Vec3) -> HitRecord {
        let front_face = ray.direction.spec_dot(&outward_normal).raw < 0;
        HitRecord {
            point,
            normal: if front_face {
                outward_normal
            } else {
                outward_normal.negated()
            },
            t,
            front_face,
        }
    }

    /// A record at the origin with a zero normal, parameter zero and the
    /// back face.
    pub fn new() -> (rec: HitRecord)
        ensures
            rec.point == Vec3(Scalar::zero(), Scalar::zero(), Scalar::zero()),
            rec.normal == Vec3(Scalar::zero(), Scalar::zero(), Scalar::zero()),
            rec.t == Scalar::zero(),
            !rec.front_face,
    {
        HitRecord {
            point: Vec3(Scalar::zero(), Scalar::zero(), Scalar::zero()),
            normal: Vec3(Scalar::zero(), Scalar::zero(), Scalar::zero()),
            t: Scalar::zero(),
            front_face: false,
        }
    }

    /// Sets the face flag and the normal from the outward normal: the normal
    /// kept is the one that points against `ray`.
    fn set_face_normal(&mut self, ray: &Ray, outward_normal: &Vec3)
        ensures
            *final(self) == HitRecord::facing(ray, old(self).point, old(self).t, *outward_normal),
    {
        self.front_face = ray.direction().dot(outward_normal) < Scalar::zero();
        if self.front_face {
            self.normal = *outward_normal;
        } else {
            self.normal = outward_normal.neg();
        }
    }
}

/// The normal of a record made by `HitRecord::facing` from an outward normal
/// in range never points along the ray.
pub proof fn lemma_normal_opposes_ray(ray: Ray, point: Vec3, t: Scalar, outward_normal: Vec3)
    requires
        outward_normal.in_range(),
    ensures
        HitRecord::facing(&ray, point, t, outward_normal).normal.spec_dot(&ray.direction).raw <= 0,
{
    lemma_dot_commutes(ray.direction, outward_normal);
    lemma_dot_negated(outward_normal, ray.direction);
}

impl Sphere {
    /// The squared length of the ray's direction: the quadratic's leading
    /// coefficient.
    pub open spec fn quad_a(&self, ray: &Ray) -> Scalar {
        ray.direction.spec_length_squared()
    }

    /// Half of the quadratic's linear coefficient.
    pub open spec fn half_b(&self, ray: &Ray) -> Scalar {
        ray.origin.minus(self.center).spec_dot(&ray.direction)
    }

    /// The quadratic's constant coefficient.
    pub open spec fn quad_c(&self, ray: &Ray) -> Scalar {
        ray.origin.minus(self.center).spec_length_squared().minus(self.radius.times(self.radius))
    }

    /// The discriminant of the quadratic in its half-coefficient form.
    pub open spec fn discriminant(&self, ray: &Ray) -> Scalar {
        self.half_b(ray).times(self.half_b(ray)).minus(self.quad_a(ray).times(self.quad_c(ray)))
    }

    /// The smaller root (where the discriminant is not negative).
    pub open spec fn near_root(&self, ray: &Ray) -> Scalar {
        self.half_b(ray).negated().minus(self.discriminant(ray).spec_sqrt()).over(self.quad_a(ray))
    }

    /// The larger root (where the discriminant is not negative).
    pub open spec fn far_root(&self, ray: &Ray) -> Scalar {
        self.half_b(ray).negated().plus(self.discriminant(ray).spec_sqrt()).over(self.quad_a(ray))
    }

    /// The outward normal at `point`: its offset from the center divided by
    /// the radius.
    pub open spec fn outward_normal(&self, point: Vec3) -> Vec3 {
        point.minus(self.center).divided(self.radius)
    }

    /// The record of the hit at parameter `root`.
    pub open spec fn record_at(&self, ray: &Ray, root: Scalar) -> HitRecord {
        HitRecord::facing(ray, ray.spec_at(root), root, self.outward_normal(ray.spec_at(root)))
    }

    /// The smaller root lies at or below the larger one.
    pub proof fn lemma_roots_ordered(&self, ray: &Ray)
        requires
            self.discriminant(ray).raw >= 0,
        ensures
            self.near_root(ray).raw <= self.far_root(ray).raw,
    {
        let minus_h = self.half_b(ray).negated();
        let sqrtd = self.discriminant(ray).spec_sqrt();
        crate::scalar::lemma_sqrt_not_negative(self.discriminant(ray));
        ray.direction.lemma_length_squared_not_negative();
        lemma_over_monotone(minus_h.minus(sqrtd), minus_h.plus(sqrtd), self.quad_a(ray));
    }

    /// The hit of a sphere is at the smaller root where that root lies
    /// inside the window, else at the larger root where that one does; there
    /// is none where neither does or the discriminant is negative.
    pub proof fn lemma_hit_by_roots(&self, ray: &Ray, t_min: Scalar, t_max: Scalar)
        ensures
            nearest_in_window(self.intersections(ray), t_min, t_max) == if self.discriminant(
                ray,
            ).raw < 0 {
                None
            } else if in_window(self.near_root(ray), t_min, t_max) {
                Some(self.record_at(ray, self.near_root(ray)))
            } else if in_window(self.far_root(ray), t_min, t_max) {
                Some(self.record_at(ray, self.far_root(ray)))
            } else {
                None
            },
    {
        if self.discriminant(ray).raw >= 0 {
            self.lemma_roots_ordered(ray);
            lemma_nearest_of_two(
                self.record_at(ray, self.near_root(ray)),
                self.record_at(ray, self.far_root(ray)),
                t_min,
                t_max,
            );
        }
    }

    /// Where the discriminant is zero the two roots are one.
    pub proof fn lemma_tangent_roots_coincide(&self, ray: &Ray)
        requires
            self.discriminant(ray).raw == 0,
        ensures
            self.near_root(ray) == self.far_root(ray),
    {
        assert(crate::scalar::is_floor_sqrt(0, 0));
        crate::scalar::lemma_floor_sqrt_unique(0, 0);
        assert(self.discriminant(ray).raw * crate::scalar::SCALE == 0);
    }

    /// Where the discriminant is negative there is no hit, whatever the
    /// window.
    pub proof fn lemma_negative_discriminant_misses(&self, ray: &Ray, t_min: Scalar, t_max: Scalar)
        requires
            self.discriminant(ray).raw < 0,
        ensures
            nearest_in_window(self.intersections(ray), t_min, t_max) is None,
    {
    }

    /// The normal of a sphere's hit record never points along the ray.
    pub proof fn lemma_record_normal_opposes_ray(&self, ray: &Ray, root: Scalar)
        ensures
            self.record_at(ray, root).normal.spec_dot(&ray.direction).raw <= 0,
    {
        lemma_normal_opposes_ray(*ray, ray.spec_at(root), root, self.outward_normal(ray.spec_at(root)));
    }
}

impl Hittable for Sphere {
    /// None where the discriminant is negative; otherwise the hit at the
    /// smaller root and the hit at the larger root.
    open spec fn intersections(&self, ray: &Ray) -> Seq<HitRecord> {
        if self.discriminant(ray).raw < 0 {
            Seq::empty()
        } else {
            seq![self.record_at(ray, self.near_root(ray)), self.record_at(ray, self.far_root(ray))]
        }
    }

    /// Solves the quadratic for the parameters at which `ray` meets the
    /// sphere and takes the smaller root that lies inside the window.
    fn hit(&self, ray: &Ray, t_min: Scalar, t_max: Scalar, rec: &mut HitRecord) -> (found: bool)
        ensures
            self.discriminant(ray).raw < 0 ==> !found,
            found ==> final(rec).normal.spec_dot(&ray.direction).raw <= 0,
    {
        let oc = ray.origin() - self.center;
        let a = ray.direction().length_squared();
        let half_b = oc.dot(&ray.direction());
        let c = oc.length_squared() - self.radius * self.radius;
        let discriminant = half_b * half_b - a * c;
        if discriminant < Scalar::zero() {
            return false;
        }
        proof {
            self.lemma_hit_by_roots(ray, t_min, t_max);
        }
        let sqrtd = discriminant.sqrt();
        let mut root = (half_b.neg() - sqrtd) / a;
        if root <= t_min || t_max <= root {
            root = (half_b.neg() + sqrtd) / a;
            if root <= t_min || t_max <= root {
                return false;
            }
        }
        rec.t = root;
        rec.point = ray.at(rec.t);
        let outward_normal = (rec.point - self.center) / self.radius;
        rec.set_face_normal(ray, &outward_normal);
        proof {
            self.lemma_record_normal_opposes_ray(ray, root);
        }
        true
    }
}

} // verus!
