//! Rays: half-lines from an origin along a direction.
use crate::color::Color;
use crate::scalar::Scalar;
use crate::scalar::SCALE;
use crate::sphere::nearest_in_window;
use crate::sphere::HitRecord;
use crate::sphere::Hittable;
use crate::sphere::Sphere;
use crate::vec3::Vec3;
use core::ops::Neg;
use vstd::prelude::*;

verus! {

/// A ray from `origin` along `direction`, which need not have length one.
#[derive(Clone, Copy, Debug, PartialEq, Eq, Structural)]
pub struct Ray {
    pub origin: Vec3,
    pub direction: Vec3,
}

/// One half.
pub open spec fn half() -> Scalar {
    Scalar { raw: 500_000 }
}

/// The colour with every component at one.
pub open spec fn white() -> Color {
    Vec3(Scalar::one(), Scalar::one(), Scalar::one())
}

/// The blue of the sky: (0.5, 0.7, 1.0).
pub open spec fn sky_blue() -> Color {
    Vec3(Scalar { raw: 500_000 }, Scalar { raw: 700_000 }, Scalar::one())
}

/// The colour that shows a unit normal: each component moved from between
/// minus one and one to between zero and one.
pub open spec fn normal_color(normal: Vec3) -> Color {
    normal.plus(white()).scaled(half())
}

/// How far the sky's gradient has gone from white to blue for a ray along
/// `direction`: half of the unit direction's `y` plus one.
pub open spec fn sky_blend(direction: Vec3) -> Scalar {
    half().times(direction.spec_unit_vector().1.plus(Scalar::one()))
}

/// The colour of the sky for a ray along `direction`: white and blue mixed
/// by the blend.
pub open spec fn sky_color(direction: Vec3) -> Color {
    white().scaled(Scalar::one().minus(sky_blend(direction))).plus(
        sky_blue().scaled(sky_blend(direction)),
    )
}

/// The colour of a ray along `direction` for what it hit: the normal's
/// colour for a hit, the sky's for none.
pub open spec fn shade(direction: Vec3, hit: Option<HitRecord>) -> Color {
    match hit {
        Some(rec) => normal_color(rec.normal),
        None => sky_color(direction),
    }
}

impl Ray {
    /// The point at parameter `t`: the origin plus `t` times the direction.
    pub open spec fn spec_at(&self, t: Scalar) -> Vec3 {
        self.origin.plus(self.direction.scaled(t))
    }

    /// The colour of this ray in `world`: the shade of the nearest hit that
    /// `world` has for it between zero and infinity.
    pub open spec fn spec_ray_color<H: Hittable + ?Sized>(&self, world: &H) -> Color {
        shade(
            self.direction,
            nearest_in_window(world.intersections(self), Scalar::zero(), Scalar::infinity()),
        )
    }

    /// What `hit_sphere` gives: minus one where the ray's line misses the
    /// sphere, else the smaller root, whatever its sign.
    pub open spec fn spec_hit_sphere(&self, center: Vec3, radius: Scalar) -> Scalar {
        let sphere = Sphere { center, radius };
        if sphere.discriminant(self).raw < 0 {
            Scalar::one().negated()
        } else {
            sphere.near_root(self)
        }
    }

    /// The point from which the ray starts.
    pub fn origin(&self) -> (r: Vec3)
        ensures
            r == self.origin,
    {
        self.origin
    }

    /// The vector along which the ray goes.
    pub fn direction(&self) -> (r: Vec3)
        ensures
            r == self.direction,
    {
        self.direction
    }

    /// The point at parameter `t`, which may be zero or negative: the origin
    /// plus `t` times the direction.
    #[verifier::when_used_as_spec(spec_at)]
    pub fn at(&self, t: Scalar) -> (p: Vec3)
        ensures
            p == self.spec_at(t),
    {
        self.origin() + t * self.direction()
    }

    /// The colour of this ray in `world`: that of the nearest hit between
    /// zero and infinity, or of the sky.
    pub fn ray_color<H: Hittable + ?Sized>(&self, world: &H) -> (color: Color)
        ensures
            color == self.spec_ray_color(world),
    {
        let half = Scalar { raw: 500_000 };
        let white = Vec3(Scalar::one(), Scalar::one(), Scalar::one());
        let mut rec = HitRecord::new();
        if world.hit(self, Scalar::zero(), Scalar::infinity(), &mut rec) {
            return half * (rec.normal + white);
        }
        let sky_blue = Vec3(Scalar { raw: 500_000 }, Scalar { raw: 700_000 }, Scalar::one());
        let unit_direction = self.direction().unit_vector();
        let t = half * (unit_direction.y() + Scalar::one());
        (Scalar::one() - t) * white + t * sky_blue
    }

    /// The parameter at which the ray's line first meets the sphere, or minus
    /// one where it misses it.
    #[verifier::when_used_as_spec(spec_hit_sphere)]
    pub fn hit_sphere(&self, center: Vec3, radius: Scalar) -> (t: Scalar)
        ensures
            t == self.spec_hit_sphere(center, radius),
    {
        let oc = self.origin() - center;
        let a = self.direction().length_squared();
        let h = oc.dot(&self.direction());
        let c = oc.length_squared() - radius * radius;
        let discriminant = h * h - a * c;
        if discriminant < Scalar::zero() {
            return Scalar::one().neg();
        }
        (h.neg() - discriminant.sqrt()) / a
    }
}

/// Where the unit direction's `y` lies between minus one and one, every
/// component of the sky's colour lies between zero and one.
pub proof fn lemma_sky_color_in_unit_range(direction: Vec3)
    requires
        -SCALE <= direction.spec_unit_vector().1.raw <= SCALE,
    ensures
        0 <= sky_color(direction).0.raw <= SCALE,
        0 <= sky_color(direction).1.raw <= SCALE,
        0 <= sky_color(direction).2.raw <= SCALE,
{
}

/// Where every component of the normal lies between minus one and one, every
/// component of its colour lies between zero and one.
pub proof fn lemma_normal_color_in_unit_range(normal: Vec3)
    requires
        -SCALE <= normal.0.raw <= SCALE,
        -SCALE <= normal.1.raw <= SCALE,
        -SCALE <= normal.2.raw <= SCALE,
    ensures
        0 <= normal_color(normal).0.raw <= SCALE,
        0 <= normal_color(normal).1.raw <= SCALE,
        0 <= normal_color(normal).2.raw <= SCALE,
{
}

/// At parameter zero a ray is at its origin.
pub proof fn lemma_at_zero(ray: Ray)
    requires
        ray.origin.in_range(),
    ensures
        ray.spec_at(Scalar::zero()) == ray.origin,
{
    let d = ray.direction;
    assert(d.0.raw * 0 == 0 && d.1.raw * 0 == 0 && d.2.raw * 0 == 0) by (nonlinear_arith);
}

} // verus!
