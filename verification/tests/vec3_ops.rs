use raytracer::scalar::Scalar;
use raytracer::vec3::Vec3;

#[test]
fn vec3_add() {
    let v1 = Vec3(Scalar::from_int(1), Scalar::from_int(0), Scalar::from_int(0));
    let v2 = Vec3(Scalar::from_int(1), Scalar::from_int(1), Scalar::from_int(0));

    let result = v1 + v2;

    assert_eq!(result.x(), Scalar::from_int(2));
}

#[test]
fn vec3_add_assign() {
    let v1 = Vec3(Scalar::from_int(1), Scalar::from_int(0), Scalar::from_int(0));
    let mut v3 = Vec3(Scalar::from_int(2), Scalar::from_int(1), Scalar::from_int(0));
    v3 += v1;
    assert_eq!(v3.x(), Scalar::from_int(3));
}

#[test]
fn vec3_sub() {
    let v1 = Vec3(Scalar::from_int(1), Scalar::from_int(0), Scalar::from_int(0));
    let v2 = Vec3(Scalar::from_int(1), Scalar::from_int(1), Scalar::from_int(0));

    let sub_result = v1 - v2;
    assert_eq!(sub_result.x(), Scalar::from_int(0));
}

#[test]
fn vec3_mul() {
    let v1 = Vec3(Scalar::from_int(1), Scalar::from_int(2), Scalar::from_int(1));
    let v2 = Vec3(Scalar::from_int(4), Scalar::from_int(3), Scalar::from_int(5));

    let result_1 = v1 * v2;
    let result_2 = v1 * Scalar::from_int(3);
    let result_3 = Scalar::from_int(3) * v1;

    assert_eq!(result_1.x(), Scalar::from_int(4));
    assert_eq!(result_2.x(), Scalar::from_int(3));
    assert_eq!(result_3.y(), Scalar::from_int(6));
}

#[test]
fn vec3_mul_assign() {
    let mut v4 = Vec3(Scalar::from_int(1), Scalar::from_int(1), Scalar::from_int(0));
    v4 *= Scalar::from_int(4);
    assert_eq!(v4.y(), Scalar::from_int(4));
}

#[test]
fn vec3_div_assign() {
    let mut v5 = Vec3(Scalar::from_int(5), Scalar::from_int(1), Scalar::from_int(0));
    v5 /= Scalar::from_int(5);
    assert_eq!(v5.x(), Scalar::from_int(1));
}

#[test]
fn vec3_div() {
    let v1 = Vec3(Scalar::from_int(5), Scalar::from_int(1), Scalar::from_int(0));
    let result = v1 / Scalar::from_int(2);
    assert_eq!(result.x(), Scalar { raw: 2_500_000 });
}

#[test]
fn vec3_length() {
    let v6 = Vec3(Scalar::from_int(1), Scalar::from_int(1), Scalar::from_int(0));
    assert_eq!(v6.length(), (Scalar::from_int(1) + Scalar::from_int(1)).sqrt());
}

#[test]
fn vec3_dot() {
    let v1 = Vec3(Scalar::from_int(1), Scalar::from_int(2), Scalar::from_int(3));
    let v2 = Vec3(Scalar::from_int(4), Scalar::from_int(5), Scalar::from_int(6));

    let result = v1.dot(&v2);
    assert_eq!(result, Scalar::from_int(32));
}

#[test]
fn vec3_cross() {
    let v1 = Vec3(Scalar::from_int(1), Scalar::from_int(2), Scalar::from_int(3));
    let v2 = Vec3(Scalar::from_int(4), Scalar::from_int(5), Scalar::from_int(6));

    let result = v1.cross(&v2);
    assert_eq!(result.x(), Scalar::from_int(-3));
    assert_eq!(result.y(), Scalar::from_int(6));
    assert_eq!(result.z(), Scalar::from_int(-3));
}

#[test]
fn vec3_accessors_give_the_components_in_order() {
    let v = Vec3(Scalar { raw: 1 }, Scalar { raw: 2 }, Scalar { raw: 3 });
    assert_eq!(v.x(), Scalar { raw: 1 });
    assert_eq!(v.y(), Scalar { raw: 2 });
    assert_eq!(v.z(), Scalar { raw: 3 });
}

#[test]
fn vec3_length_squared_sums_the_squares() {
    let v = Vec3(Scalar::from_int(1), Scalar::from_int(-2), Scalar::from_int(3));
    assert_eq!(v.length_squared(), Scalar::from_int(14));
}

#[test]
fn vec3_length_rounds_down() {
    let v = Vec3(Scalar::from_int(1), Scalar::from_int(1), Scalar::from_int(0));
    assert_eq!(v.length(), Scalar { raw: 1_414_213 });
    let w = Vec3(Scalar::from_int(3), Scalar::from_int(0), Scalar::from_int(-4));
    assert_eq!(w.length(), Scalar::from_int(5));
}

#[test]
fn vec3_neg_negates_each_component() {
    let v = Vec3(Scalar::from_int(1), Scalar::from_int(-2), Scalar::from_int(0));
    assert_eq!(-v, Vec3(Scalar::from_int(-1), Scalar::from_int(2), Scalar::from_int(0)));
}

#[test]
fn vec3_cross_is_right_handed() {
    let x = Vec3(Scalar::from_int(1), Scalar::from_int(0), Scalar::from_int(0));
    let y = Vec3(Scalar::from_int(0), Scalar::from_int(1), Scalar::from_int(0));
    let z = Vec3(Scalar::from_int(0), Scalar::from_int(0), Scalar::from_int(1));
    assert_eq!(x.cross(&y), z);
    assert_eq!(y.cross(&x), -z);
}

#[test]
fn vec3_dot_does_not_depend_on_the_order() {
    let a = Vec3(Scalar { raw: 1_234_567 }, Scalar { raw: -7_654_321 }, Scalar { raw: 333_333 });
    let b = Vec3(Scalar { raw: -999_999 }, Scalar { raw: 2_000_001 }, Scalar { raw: 5 });
    assert_eq!(a.dot(&b), b.dot(&a));
}

#[test]
fn vec3_dot_of_a_negated_vector_is_negated() {
    let a = Vec3(Scalar { raw: 1_234_567 }, Scalar { raw: -7_654_321 }, Scalar { raw: 333_333 });
    let b = Vec3(Scalar { raw: -999_999 }, Scalar { raw: 2_000_001 }, Scalar { raw: 5 });
    assert_eq!((-a).dot(&b), -(a.dot(&b)));
}

#[test]
fn vec3_unit_vector_has_length_one_along_an_axis() {
    let v = Vec3(Scalar::from_int(0), Scalar::from_int(0), Scalar::from_int(-4));
    assert_eq!(
        v.unit_vector(),
        Vec3(Scalar::from_int(0), Scalar::from_int(0), Scalar::from_int(-1))
    );
}

#[test]
fn vec3_unit_vector_divides_by_the_length() {
    let v = Vec3(Scalar::from_int(3), Scalar::from_int(4), Scalar::from_int(0));
    assert_eq!(
        v.unit_vector(),
        Vec3(Scalar { raw: 600_000 }, Scalar { raw: 800_000 }, Scalar::from_int(0))
    );
}

#[test]
fn vec3_unit_vector_of_zero_divides_zero_by_zero() {
    let v = Vec3(Scalar::from_int(0), Scalar::from_int(0), Scalar::from_int(0));
    assert_eq!(v.unit_vector(), v);
}

#[test]
fn vec3_division_rounds_each_component_toward_zero() {
    let v = Vec3(Scalar::from_int(1), Scalar::from_int(-1), Scalar::from_int(2));
    assert_eq!(
        v / Scalar::from_int(3),
        Vec3(Scalar { raw: 333_333 }, Scalar { raw: -333_333 }, Scalar { raw: 666_666 })
    );
}
