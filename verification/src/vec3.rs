//! Three-component vectors, used for points, directions and colours.
use crate::scalar::lemma_plus_negated;
use crate::scalar::lemma_square_not_negative;
use crate::scalar::lemma_times_commutes;
use crate::scalar::lemma_times_negated;
use crate::scalar::Scalar;
use core::ops::Neg;
use vstd::prelude::*;

verus! {

/// A vector of three scalars: `x`, `y` and `z`, in that order.
#[derive(Clone, Copy, Debug, PartialEq, Eq, Structural)]
pub struct Vec3(pub Scalar, pub Scalar, pub Scalar);

impl Vec3 {
    /// Whether every component lies in the range that operations yield.
    pub open spec fn in_range(self) -> bool {
        self.0.in_range() && self.1.in_range() && self.2.in_range()
    }

    /// Each component negated.
    pub open spec fn negated(self) -> Vec3 {
        Vec3(self.0.negated(), self.1.negated(), self.2.negated())
    }

    /// The component-wise sum with `rhs`.
    pub open spec fn plus(self, rhs: Vec3) -> Vec3 {
        Vec3(self.0.plus(rhs.0), self.1.plus(rhs.1), self.2.plus(rhs.2))
    }

    /// The component-wise difference from `rhs`.
    pub open spec fn minus(self, rhs: Vec3) -> Vec3 {
        Vec3(self.0.minus(rhs.0), self.1.minus(rhs.1), self.2.minus(rhs.2))
    }

    /// Each component multiplied by `t`.
    pub open spec fn scaled(self, t: Scalar) -> Vec3 {
        Vec3(self.0.times(t), self.1.times(t), self.2.times(t))
    }

    /// The component-wise product with `rhs`.
    pub open spec fn times(self, rhs: Vec3) -> Vec3 {
        Vec3(self.0.times(rhs.0), self.1.times(rhs.1), self.2.times(rhs.2))
    }

    /// Each component divided by `t`.
    pub open spec fn divided(self, t: Scalar) -> Vec3 {
        Vec3(self.0.over(t), self.1.over(t), self.2.over(t))
    }

    /// The dot product with `rhs`.
    pub open spec fn spec_dot(&self, rhs: &Vec3) -> Scalar {
        self.0.times(rhs.0).plus(self.1.times(rhs.1)).plus(self.2.times(rhs.2))
    }

    /// The right-handed cross product with `rhs`.
    pub open spec fn spec_cross(&self, rhs: &Vec3) -> Vec3 {
        Vec3(
            self.1.times(rhs.2).minus(self.2.times(rhs.1)),
            self.2.times(rhs.0).minus(self.0.times(rhs.2)),
            self.0.times(rhs.1).minus(self.1.times(rhs.0)),
        )
    }

    /// The sum of the squared components.
    pub open spec fn spec_length_squared(&self) -> Scalar {
        self.0.times(self.0).plus(self.1.times(self.1)).plus(self.2.times(self.2))
    }

    /// The square root of the squared length.
    pub open spec fn spec_length(&self) -> Scalar {
        self.spec_length_squared().spec_sqrt()
    }

    /// The vector divided by its own length.
    pub open spec fn spec_unit_vector(&self) -> Vec3 {
        self.divided(self.spec_length())
    }

    /// The squared length is not negative.
    pub proof fn lemma_length_squared_not_negative(&self)
        ensures
            self.spec_length_squared().raw >= 0,
    {
        lemma_square_not_negative(self.0);
        lemma_square_not_negative(self.1);
        lemma_square_not_negative(self.2);
    }

    /// The first component.
    pub fn x(&self) -> (r: Scalar)
        ensures
            r == self.0,
    {
        self.0
    }

    /// The second component.
    pub fn y(&self) -> (r: Scalar)
        ensures
            r == self.1,
    {
        self.1
    }

    /// The third component.
    pub fn z(&self) -> (r: Scalar)
        ensures
            r == self.2,
    {
        self.2
    }

    /// The square root of the squared length, rounded down.
    #[verifier::when_used_as_spec(spec_length)]
    pub fn length(&self) -> (r: Scalar)
        ensures
            r == self.spec_length(),
    {
        let squared = self.length_squared();
        squared.sqrt()
    }

    /// The sum of the squared components.
    #[verifier::when_used_as_spec(spec_length_squared)]
    pub fn length_squared(&self) -> (r: Scalar)
        ensures
            r == self.spec_length_squared(),
            r.raw >= 0,
    {
        proof {
            self.lemma_length_squared_not_negative();
        }
        self.x() * self.x() + self.y() * self.y() + self.z() * self.z()
    }

    /// The dot product with `rhs`.
    #[verifier::when_used_as_spec(spec_dot)]
    pub fn dot(&self, rhs: &Vec3) -> (r: Scalar)
        ensures
            r == self.spec_dot(rhs),
    {
        self.x() * rhs.x() + self.y() * rhs.y() + self.z() * rhs.z()
    }

    /// The right-handed cross product with `rhs`.
    #[verifier::when_used_as_spec(spec_cross)]
    pub fn cross(&self, rhs: &Vec3) -> (r: Vec3)
        ensures
            r == self.spec_cross(rhs),
    {
        Vec3(
            self.y() * rhs.z() - self.z() * rhs.y(),
            self.z() * rhs.x() - self.x() * rhs.z(),
            self.x() * rhs.y() - self.y() * rhs.x(),
        )
    }

    /// The vector divided by its own length. A vector of length zero has
    /// each component divided by zero.
    #[verifier::when_used_as_spec(spec_unit_vector)]
    pub fn unit_vector(&self) -> (r: Vec3)
        ensures
            r == self.spec_unit_vector(),
    {
        *self / self.length()
    }
}

/// The sum does not depend on the order of its terms.
pub proof fn lemma_plus_commutes(a: Vec3, b: Vec3)
    ensures
        a.plus(b) == b.plus(a),
{
}

/// The dot product does not depend on the order of its factors.
pub proof fn lemma_dot_commutes(a: Vec3, b: Vec3)
    ensures
        a.spec_dot(&b) == b.spec_dot(&a),
{
    lemma_times_commutes(a.0, b.0);
    lemma_times_commutes(a.1, b.1);
    lemma_times_commutes(a.2, b.2);
}

/// Negating a factor negates the dot product.
pub proof fn lemma_dot_negated(a: Vec3, b: Vec3)
    requires
        a.in_range(),
    ensures
        a.negated().spec_dot(&b) == a.spec_dot(&b).negated(),
{
    lemma_times_negated(a.0, b.0);
    lemma_times_negated(a.1, b.1);
    lemma_times_negated(a.2, b.2);
    lemma_plus_negated(a.0.times(b.0), a.1.times(b.1));
    lemma_plus_negated(a.0.times(b.0).plus(a.1.times(b.1)), a.2.times(b.2));
}

impl core::ops::Neg for Vec3 {
    type Output = Vec3;

    /// Each component negated.
    fn neg(self) -> (r: Vec3)
        ensures
            r == self.negated(),
    {
        Vec3(self.x().neg(), self.y().neg(), self.z().neg())
    }
}

impl vstd::std_specs::ops::NegSpecImpl for Vec3 {
    open spec fn obeys_neg_spec() -> bool {
        true
    }

    open spec fn neg_req(self) -> bool {
        true
    }

    open spec fn neg_spec(self) -> Vec3 {
        self.negated()
    }
}

impl core::ops::Sub<Vec3> for Vec3 {
    type Output = Vec3;

    /// The component-wise difference.
    fn sub(self, rhs: Vec3) -> (r: Vec3)
        ensures
            r == self.minus(rhs),
    {
        Vec3(self.x() - rhs.x(), self.y() - rhs.y(), self.z() - rhs.z())
    }
}

impl vstd::std_specs::ops::SubSpecImpl<Vec3> for Vec3 {
    open spec fn obeys_sub_spec() -> bool {
        true
    }

    open spec fn sub_req(self, rhs: Vec3) -> bool {
        true
    }

    open spec fn sub_spec(self, rhs: Vec3) -> Vec3 {
        self.minus(rhs)
    }
}

impl core::ops::Add<Vec3> for Vec3 {
    type Output = Vec3;

    /// The component-wise sum.
    fn add(self, rhs: Vec3) -> (r: Vec3)
        ensures
            r == self.plus(rhs),
    {
        Vec3(self.x() + rhs.x(), self.y() + rhs.y(), self.z() + rhs.z())
    }
}

impl vstd::std_specs::ops::AddSpecImpl<Vec3> for Vec3 {
    open spec fn obeys_add_spec() -> bool {
        true
    }

    open spec fn add_req(self, rhs: Vec3) -> bool {
        true
    }

    open spec fn add_spec(self, rhs: Vec3) -> Vec3 {
        self.plus(rhs)
    }
}

impl core::ops::AddAssign<Vec3> for Vec3 {
    /// Adds `other` component by component.
    fn add_assign(&mut self, other: Vec3)
        ensures
            *final(self) == old(self).plus(other),
    {
        *self = Vec3(self.x() + other.x(), self.y() + other.y(), self.z() + other.z())
    }
}

impl core::ops::MulAssign<Scalar> for Vec3 {
    /// Multiplies each component by `other`.
    fn mul_assign(&mut self, other: Scalar)
        ensures
            *final(self) == old(self).scaled(other),
    {
        *self = Vec3(self.x() * other, self.y() * other, self.z() * other)
    }
}

impl core::ops::Mul<Scalar> for Vec3 {
    type Output = Vec3;

    /// Each component multiplied by `rhs`.
    fn mul(self, rhs: Scalar) -> (r: Vec3)
        ensures
            r == self.scaled(rhs),
    {
        Vec3(self.x() * rhs, self.y() * rhs, self.z() * rhs)
    }
}

impl vstd::std_specs::ops::MulSpecImpl<Scalar> for Vec3 {
    open spec fn obeys_mul_spec() -> bool {
        true
    }

    open spec fn mul_req(self, rhs: Scalar) -> bool {
        true
    }

    open spec fn mul_spec(self, rhs: Scalar) -> Vec3 {
        self.scaled(rhs)
    }
}

impl core::ops::Mul<Vec3> for Vec3 {
    type Output = Vec3;

    /// The component-wise product.
    fn mul(self, rhs: Vec3) -> (r: Vec3)
        ensures
            r == self.times(rhs),
    {
        Vec3(self.x() * rhs.x(), self.y() * rhs.y(), self.z() * rhs.z())
    }
}

impl vstd::std_specs::ops::MulSpecImpl<Vec3> for Vec3 {
    open spec fn obeys_mul_spec() -> bool {
        true
    }

    open spec fn mul_req(self, rhs: Vec3) -> bool {
        true
    }

    open spec fn mul_spec(self, rhs: Vec3) -> Vec3 {
        self.times(rhs)
    }
}

impl core::ops::Mul<Vec3> for Scalar {
    type Output = Vec3;

    /// Each component of `rhs` multiplied by the scalar.
    fn mul(self, rhs: Vec3) -> (r: Vec3)
        ensures
            r == rhs.scaled(self),
    {
        rhs * self
    }
}

impl vstd::std_specs::ops::MulSpecImpl<Vec3> for Scalar {
    open spec fn obeys_mul_spec() -> bool {
        true
    }

    open spec fn mul_req(self, rhs: Vec3) -> bool {
        true
    }

    open spec fn mul_spec(self, rhs: Vec3) -> Vec3 {
        rhs.scaled(self)
    }
}

impl core::ops::DivAssign<Scalar> for Vec3 {
    /// Divides each component by `other`.
    fn div_assign(&mut self, other: Scalar)
        ensures
            *final(self) == old(self).divided(other),
    {
        *self = Vec3(self.x() / other, self.y() / other, self.z() / other)
    }
}

impl core::ops::Div<Scalar> for Vec3 {
    type Output = Vec3;

    /// Each component divided by `rhs`.
    fn div(self, rhs: Scalar) -> (r: Vec3)
        ensures
            r == self.divided(rhs),
    {
        Vec3(self.x() / rhs, self.y() / rhs, self.z() / rhs)
    }
}

impl vstd::std_specs::ops::DivSpecImpl<Scalar> for Vec3 {
    open spec fn obeys_div_spec() -> bool {
        true
    }

    open spec fn div_req(self, rhs: Scalar) -> bool {
        true
    }

    open spec fn div_spec(self, rhs: Scalar) -> Vec3 {
        self.divided(rhs)
    }
}

} // verus!
