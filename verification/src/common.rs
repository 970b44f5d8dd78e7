//! Conversions of general use.
use crate::scalar::Scalar;
use vstd::prelude::*;

verus! {

/// Pi to six decimal places, in raw units.
pub const PI_RAW: i64 = 3_141_593;

/// The angle of `degrees` degrees in radians: `degrees` times pi, divided by
/// 180.
pub open spec fn spec_degree_to_radians(degrees: Scalar) -> Scalar {
    degrees.times(Scalar { raw: PI_RAW }).over(Scalar::from_int(180))
}

/// The angle of `degrees` degrees in radians.
#[verifier::when_used_as_spec(spec_degree_to_radians)]
pub fn degree_to_radians(degrees: Scalar) -> (radians: Scalar)
    ensures
        radians == spec_degree_to_radians(degrees),
{
    degrees * Scalar { raw: PI_RAW } / Scalar::from_int(180)
}

} // verus!
