//! The camera: which ray goes through which pixel, and the text of a row of
//! pixels.
use crate::color::color_line;
use crate::color::write_color;
use crate::color::Color;
use crate::ray::Ray;
use crate::scalar::Scalar;
use crate::sphere::Hittable;
use crate::vec3::Vec3;
use vstd::prelude::*;

verus! {

/// A camera at `origin` that looks at a rectangle: `lower_left_corner` is one
/// corner of it, `horizontal` and `vertical` are its two sides.
#[derive(Clone, Copy, Debug, PartialEq, Eq, Structural)]
pub struct Camera {
    pub origin: Vec3,
    pub lower_left_corner: Vec3,
    pub horizontal: Vec3,
    pub vertical: Vec3,
}

/// The number of rows of an image of `width` columns whose width is `aspect`
/// times its height: the integer part of `width` divided by `aspect`.
pub open spec fn spec_image_height(width: u32, aspect: Scalar) -> u32 {
    Scalar::from_int(width as i64).over(aspect).spec_to_u32()
}

/// The number of rows of an image of `width` columns whose width is `aspect`
/// times its height.
#[verifier::when_used_as_spec(spec_image_height)]
pub fn image_height(width: u32, aspect: Scalar) -> (height: u32)
    ensures
        height == spec_image_height(width, aspect),
{
    (Scalar::from_int(width as i64) / aspect).to_u32()
}

/// How far `index` lies along `count` pixels: `index` divided by `count`
/// minus one.
pub open spec fn spec_pixel_fraction(index: u32, count: u32) -> Scalar {
    Scalar::from_ratio(index as i64, (count - 1) as i64)
}

/// How far `index` lies along `count` pixels, from zero for the first to one
/// for the last.
#[verifier::when_used_as_spec(spec_pixel_fraction)]
pub fn pixel_fraction(index: u32, count: u32) -> (fraction: Scalar)
    ensures
        fraction == spec_pixel_fraction(index, count),
{
    Scalar::from_ratio(index as i64, count as i64 - 1)
}

/// The lines of `colors`, one after the other.
pub open spec fn color_lines(colors: Seq<Color>) -> Seq<u8>
    decreases colors.len(),
{
    if colors.len() == 0 {
        Seq::empty()
    } else {
        color_lines(colors.drop_last()) + color_line(colors.last())
    }
}

impl Camera {
    /// The camera at the origin that looks down the negative `z` axis at a
    /// rectangle `viewport_height` high and `aspect` times as wide, centred
    /// on the axis at the distance `focal_length`.
    pub open spec fn spec_new(aspect: Scalar, viewport_height: Scalar, focal_length: Scalar) -> Camera {
        let origin = Vec3(Scalar::zero(), Scalar::zero(), Scalar::zero());
        let horizontal = Vec3(viewport_height.times(aspect), Scalar::zero(), Scalar::zero());
        let vertical = Vec3(Scalar::zero(), viewport_height, Scalar::zero());
        Camera {
            origin,
            lower_left_corner: origin.minus(horizontal.divided(Scalar::from_int(2))).minus(
                vertical.divided(Scalar::from_int(2)),
            ).minus(Vec3(Scalar::zero(), Scalar::zero(), focal_length)),
            horizontal,
            vertical,
        }
    }

    /// The ray from the camera through the point of the rectangle that lies
    /// the fraction `u` along its horizontal side and the fraction `v` along
    /// its vertical side.
    pub open spec fn spec_get_ray(&self, u: Scalar, v: Scalar) -> Ray {
        Ray {
            origin: self.origin,
            direction: self.lower_left_corner.plus(self.horizontal.scaled(u)).plus(
                self.vertical.scaled(v),
            ).minus(self.origin),
        }
    }

    /// The ray through the pixel in column `i` of row `j`, rows counted from
    /// the bottom, of an image of `width` by `height` pixels.
    pub open spec fn pixel_ray(&self, width: u32, height: u32, i: u32, j: u32) -> Ray {
        self.spec_get_ray(pixel_fraction(i, width), pixel_fraction(j, height))
    }

    /// The colours of row `j` of the image of `world`, from the left.
    pub open spec fn row_colors<H: Hittable + ?Sized>(
        &self,
        world: &H,
        width: u32,
        height: u32,
        j: u32,
    ) -> Seq<Color> {
        Seq::new(
            width as nat,
            |i: int| self.pixel_ray(width, height, i as u32, j).spec_ray_color(world),
        )
    }

    /// The camera at the origin that looks down the negative `z` axis at a
    /// rectangle `viewport_height` high and `aspect` times as wide, centred
    /// on the axis at the distance `focal_length`.
    #[verifier::when_used_as_spec(spec_new)]
    pub fn new(aspect: Scalar, viewport_height: Scalar, focal_length: Scalar) -> (camera: Camera)
        ensures
            camera == Camera::spec_new(aspect, viewport_height, focal_length),
    {
        let origin = Vec3(Scalar::zero(), Scalar::zero(), Scalar::zero());
        let horizontal = Vec3(viewport_height * aspect, Scalar::zero(), Scalar::zero());
        let vertical = Vec3(Scalar::zero(), viewport_height, Scalar::zero());
        let lower_left_corner = origin - horizontal / Scalar::from_int(2) - vertical
            / Scalar::from_int(2) - Vec3(Scalar::zero(), Scalar::zero(), focal_length);
        Camera { origin, lower_left_corner, horizontal, vertical }
    }

    /// The ray from the camera through the point of the rectangle that lies
    /// the fraction `u` along its horizontal side and the fraction `v` along
    /// its vertical side.
    #[verifier::when_used_as_spec(spec_get_ray)]
    pub fn get_ray(&self, u: Scalar, v: Scalar) -> (ray: Ray)
        ensures
            ray == self.spec_get_ray(u, v),
    {
        Ray {
            origin: self.origin,
            direction: self.lower_left_corner + u * self.horizontal + v * self.vertical
                - self.origin,
        }
    }

    /// Appends to `out` the line of the pixel in column `i` of row `j` of the
    /// image of `world`.
    pub fn write_pixel<H: Hittable + ?Sized>(
        &self,
        out: &mut Vec<u8>,
        world: &H,
        width: u32,
        height: u32,
        i: u32,
        j: u32,
    )
        ensures
            final(out)@ == old(out)@ + color_line(
                self.pixel_ray(width, height, i, j).spec_ray_color(world),
            ),
    {
        let u = pixel_fraction(i, width);
        let v = pixel_fraction(j, height);
        let ray = self.get_ray(u, v);
        let pixel_color = ray.ray_color(world);
        write_color(out, pixel_color);
    }

    /// Appends to `out` the text of row `j` of the image of `world`: `width`
    /// lines, one for each pixel from the left.
    pub fn write_row<H: Hittable + ?Sized>(
        &self,
        out: &mut Vec<u8>,
        world: &H,
        width: u32,
        height: u32,
        j: u32,
    )
        ensures
            final(out)@ == old(out)@ + color_lines(self.row_colors(world, width, height, j)),
    {
        let ghost row = self.row_colors(world, width, height, j);
        let mut i: u32 = 0;
        assert(row.take(0) =~= Seq::<Color>::empty());
        assert(out@ =~= old(out)@ + color_lines(row.take(0)));
        while i < width
            invariant
                i <= width,
                row == self.row_colors(world, width, height, j),
                out@ == old(out)@ + color_lines(row.take(i as int)),
            decreases width - i,
        {
            self.write_pixel(out, world, width, height, i, j);
            proof {
                let seen = row.take(i as int + 1);
                assert(seen.drop_last() =~= row.take(i as int));
                assert(seen.last() == row[i as int]);
                assert(out@ =~= old(out)@ + color_lines(seen));
            }
            i = i + 1;
        }
        assert(row.take(width as int) =~= row);
    }
}

} // verus!
