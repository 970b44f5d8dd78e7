use raytracer::ray::Ray;
use raytracer::scalar::Scalar;
use raytracer::sphere::HitRecord;
use raytracer::sphere::Hittable;
use raytracer::sphere::Sphere;
use raytracer::vec3::Vec3;

#[test]
fn hit_record_new_is_all_zero() {
    let rec = HitRecord::new();
    let zero = Vec3(Scalar::zero(), Scalar::zero(), Scalar::zero());
    assert_eq!(rec.point, zero);
    assert_eq!(rec.normal, zero);
    assert_eq!(rec.t, Scalar::zero());
    assert!(!rec.front_face);
}

#[test]
fn sphere_hit_in_front() {
    let ray = Ray {
        origin: Vec3(Scalar::from_int(0), Scalar::from_int(0), Scalar::from_int(0)),
        direction: Vec3(Scalar::from_int(0), Scalar::from_int(0), Scalar::from_int(-1)),
    };
    let sphere = Sphere {
        center: Vec3(Scalar::from_int(0), Scalar::from_int(0), Scalar::from_int(-1)),
        radius: Scalar { raw: 500_000 },
    };
    let mut rec = HitRecord::new();
    assert!(sphere.hit(&ray, Scalar::zero(), Scalar::infinity(), &mut rec));
    assert_eq!(rec.t, Scalar { raw: 500_000 });
    assert_eq!(
        rec.point,
        Vec3(Scalar::from_int(0), Scalar::from_int(0), Scalar { raw: -500_000 })
    );
    assert_eq!(
        rec.normal,
        Vec3(Scalar::from_int(0), Scalar::from_int(0), Scalar::from_int(1))
    );
    assert!(rec.front_face);
}

#[test]
fn sphere_miss_leaves_the_record_as_it_was() {
    let ray = Ray {
        origin: Vec3(Scalar::from_int(0), Scalar::from_int(0), Scalar::from_int(0)),
        direction: Vec3(Scalar::from_int(0), Scalar::from_int(0), Scalar::from_int(-1)),
    };
    let sphere = Sphere {
        center: Vec3(Scalar::from_int(2), Scalar::from_int(2), Scalar::from_int(-1)),
        radius: Scalar { raw: 500_000 },
    };
    let before = HitRecord {
        point: Vec3(Scalar::from_int(1), Scalar::from_int(2), Scalar::from_int(3)),
        normal: Vec3(Scalar::from_int(0), Scalar::from_int(1), Scalar::from_int(0)),
        t: Scalar::from_int(9),
        front_face: true,
    };
    let mut rec = before;
    assert!(!sphere.hit(&ray, Scalar::zero(), Scalar::infinity(), &mut rec));
    assert_eq!(rec, before);
}

#[test]
fn sphere_hit_out_of_the_window_leaves_the_record_as_it_was() {
    let ray = Ray {
        origin: Vec3(Scalar::from_int(0), Scalar::from_int(0), Scalar::from_int(0)),
        direction: Vec3(Scalar::from_int(0), Scalar::from_int(0), Scalar::from_int(-1)),
    };
    let sphere = Sphere {
        center: Vec3(Scalar::from_int(0), Scalar::from_int(0), Scalar::from_int(-1)),
        radius: Scalar { raw: 500_000 },
    };
    let before = HitRecord {
        point: Vec3(Scalar::from_int(1), Scalar::from_int(2), Scalar::from_int(3)),
        normal: Vec3(Scalar::from_int(0), Scalar::from_int(1), Scalar::from_int(0)),
        t: Scalar::from_int(9),
        front_face: true,
    };
    let mut rec = before;
    assert!(!sphere.hit(&ray, Scalar::from_int(2), Scalar::infinity(), &mut rec));
    assert_eq!(rec, before);
    assert!(!sphere.hit(&ray, Scalar::zero(), Scalar { raw: 400_000 }, &mut rec));
    assert_eq!(rec, before);
}

#[test]
fn sphere_hit_window_is_open_at_both_ends() {
    let ray = Ray {
        origin: Vec3(Scalar::from_int(0), Scalar::from_int(0), Scalar::from_int(0)),
        direction: Vec3(Scalar::from_int(0), Scalar::from_int(0), Scalar::from_int(-1)),
    };
    let sphere = Sphere {
        center: Vec3(Scalar::from_int(0), Scalar::from_int(0), Scalar::from_int(-1)),
        radius: Scalar { raw: 500_000 },
    };
    let mut rec = HitRecord::new();
    assert!(!sphere.hit(&ray, Scalar::zero(), Scalar { raw: 500_000 }, &mut rec));
    assert_eq!(rec, HitRecord::new());
    assert!(sphere.hit(&ray, Scalar::zero(), Scalar { raw: 500_001 }, &mut rec));
    assert_eq!(rec.t, Scalar { raw: 500_000 });

    let mut far = HitRecord::new();
    assert!(sphere.hit(&ray, Scalar { raw: 500_000 }, Scalar::infinity(), &mut far));
    assert_eq!(far.t, Scalar { raw: 1_500_000 });
    let mut none = HitRecord::new();
    assert!(!sphere.hit(&ray, Scalar { raw: 500_000 }, Scalar { raw: 1_500_000 }, &mut none));
    assert_eq!(none, HitRecord::new());
}

#[test]
fn sphere_hit_from_inside_flips_the_normal() {
    let ray = Ray {
        origin: Vec3(Scalar::from_int(0), Scalar::from_int(0), Scalar::from_int(-1)),
        direction: Vec3(Scalar::from_int(0), Scalar::from_int(0), Scalar::from_int(-1)),
    };
    let sphere = Sphere {
        center: Vec3(Scalar::from_int(0), Scalar::from_int(0), Scalar::from_int(-1)),
        radius: Scalar { raw: 500_000 },
    };
    let mut rec = HitRecord::new();
    assert!(sphere.hit(&ray, Scalar::zero(), Scalar::infinity(), &mut rec));
    assert_eq!(rec.t, Scalar { raw: 500_000 });
    assert_eq!(
        rec.point,
        Vec3(Scalar::from_int(0), Scalar::from_int(0), Scalar { raw: -1_500_000 })
    );
    assert!(!rec.front_face);
    assert_eq!(
        rec.normal,
        Vec3(Scalar::from_int(0), Scalar::from_int(0), Scalar::from_int(1))
    );
    assert!(rec.normal.dot(&ray.direction()) <= Scalar::zero());
}

#[test]
fn sphere_hit_normal_never_points_along_the_ray() {
    let sphere = Sphere {
        center: Vec3(Scalar::from_int(0), Scalar::from_int(0), Scalar::from_int(-3)),
        radius: Scalar::from_int(2),
    };
    let mut hits = 0;
    let mut x: i64 = -6;
    while x <= 6 {
        let mut z: i64 = -6;
        while z <= 0 {
            let ray = Ray {
                origin: Vec3(Scalar::from_ratio(x, 2), Scalar { raw: 100_000 }, Scalar::from_ratio(z, 2)),
                direction: Vec3(Scalar::from_ratio(-x, 7), Scalar { raw: 50_000 }, Scalar::from_int(-1)),
            };
            let mut rec = HitRecord::new();
            if sphere.hit(&ray, Scalar { raw: 1_000 }, Scalar::infinity(), &mut rec) {
                hits += 1;
                assert!(rec.normal.dot(&ray.direction()) <= Scalar::zero());
                assert!(Scalar { raw: 1_000 } < rec.t && rec.t < Scalar::infinity());
                assert_eq!(rec.point, ray.at(rec.t));
            }
            z += 1;
        }
        x += 1;
    }
    assert!(hits > 0);
}

#[test]
fn sphere_tangent_ray_has_one_root() {
    let ray = Ray {
        origin: Vec3(Scalar::from_int(0), Scalar::from_int(0), Scalar::from_int(0)),
        direction: Vec3(Scalar::from_int(0), Scalar::from_int(0), Scalar::from_int(-1)),
    };
    let sphere = Sphere {
        center: Vec3(Scalar { raw: 500_000 }, Scalar::from_int(0), Scalar::from_int(-1)),
        radius: Scalar { raw: 500_000 },
    };
    let mut rec = HitRecord::new();
    assert!(sphere.hit(&ray, Scalar::zero(), Scalar::infinity(), &mut rec));
    assert_eq!(rec.t, Scalar::from_int(1));
    assert_eq!(
        rec.point,
        Vec3(Scalar::from_int(0), Scalar::from_int(0), Scalar::from_int(-1))
    );
    assert_eq!(ray.hit_sphere(sphere.center, sphere.radius), Scalar::from_int(1));

    let mut after = HitRecord::new();
    assert!(!sphere.hit(&ray, Scalar::from_int(1), Scalar::infinity(), &mut after));
    assert_eq!(after, HitRecord::new());
}

#[test]
fn sphere_hit_with_a_direction_that_is_not_a_unit() {
    let ray = Ray {
        origin: Vec3(Scalar::from_int(0), Scalar::from_int(0), Scalar::from_int(0)),
        direction: Vec3(Scalar::from_int(0), Scalar::from_int(0), Scalar::from_int(-2)),
    };
    let sphere = Sphere {
        center: Vec3(Scalar::from_int(0), Scalar::from_int(0), Scalar::from_int(-1)),
        radius: Scalar { raw: 500_000 },
    };
    let mut rec = HitRecord::new();
    assert!(sphere.hit(&ray, Scalar::zero(), Scalar::infinity(), &mut rec));
    assert_eq!(rec.t, Scalar { raw: 250_000 });
    assert_eq!(
        rec.point,
        Vec3(Scalar::from_int(0), Scalar::from_int(0), Scalar { raw: -500_000 })
    );
    assert_eq!(
        rec.normal,
        Vec3(Scalar::from_int(0), Scalar::from_int(0), Scalar::from_int(1))
    );
    assert!(rec.front_face);
}

#[test]
fn sphere_of_radius_zero_is_never_hit_off_its_center() {
    let ray = Ray {
        origin: Vec3(Scalar::from_int(0), Scalar::from_int(0), Scalar::from_int(0)),
        direction: Vec3(Scalar::from_int(0), Scalar::from_int(0), Scalar::from_int(-1)),
    };
    let sphere = Sphere {
        center: Vec3(Scalar::from_int(1), Scalar::from_int(0), Scalar::from_int(-1)),
        radius: Scalar::zero(),
    };
    let mut rec = HitRecord::new();
    assert!(!sphere.hit(&ray, Scalar::zero(), Scalar::infinity(), &mut rec));
    assert_eq!(rec, HitRecord::new());
}
