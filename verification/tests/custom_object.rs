use raytracer::hittable_list::HittableList;
use raytracer::ray::Ray;
use raytracer::scalar::Scalar;
use raytracer::sphere::HitRecord;
use raytracer::sphere::Hittable;
use raytracer::sphere::Sphere;
use raytracer::vec3::Vec3;

/// The plane of all points with the given `z`, seen from the side of larger `z`.
struct Wall {
    z: Scalar,
}

impl Hittable for Wall {
    fn hit(&self, ray: &Ray, t_min: Scalar, t_max: Scalar, rec: &mut HitRecord) -> bool {
        let t = (self.z - ray.origin().z()) / ray.direction().z();
        if t <= t_min || t_max <= t {
            return false;
        }
        rec.t = t;
        rec.point = ray.at(t);
        rec.normal = Vec3(Scalar::zero(), Scalar::zero(), Scalar::one());
        rec.front_face = true;
        true
    }
}

#[test]
fn scene_takes_objects_of_other_kinds() {
    let ray = Ray {
        origin: Vec3(Scalar::from_int(0), Scalar::from_int(0), Scalar::from_int(0)),
        direction: Vec3(Scalar::from_int(0), Scalar::from_int(0), Scalar::from_int(-1)),
    };
    let mut world = HittableList::new();
    world.add(Box::new(Wall { z: Scalar::from_int(-2) }));
    world.add(Box::new(Sphere {
        center: Vec3(Scalar::from_int(0), Scalar::from_int(0), Scalar::from_int(-4)),
        radius: Scalar::from_int(1),
    }));
    let mut rec = HitRecord::new();
    assert!(world.hit(&ray, Scalar::zero(), Scalar::infinity(), &mut rec));
    assert_eq!(rec.t, Scalar::from_int(2));
    assert_eq!(
        rec.point,
        Vec3(Scalar::from_int(0), Scalar::from_int(0), Scalar::from_int(-2))
    );

    let mut rec = HitRecord::new();
    assert!(world.hit(&ray, Scalar::from_int(2), Scalar::infinity(), &mut rec));
    assert_eq!(rec.t, Scalar::from_int(3));
    assert_eq!(
        rec.normal,
        Vec3(Scalar::from_int(0), Scalar::from_int(0), Scalar::from_int(1))
    );
}
