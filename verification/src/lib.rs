//! A small ray caster on decimal fixed-point numbers.
//!
//! A ray is cast into a scene of objects, the nearest hit among them is
//! resolved, and the hit, or its absence, is shaded into a colour. All
//! numbers are [`scalar::Scalar`]s: millionths with saturating arithmetic, so
//! that every operation is total and its result is stated exactly.
//!
//! - [`scalar`] and [`order`]: the numbers and their order.
//! - [`vec3`]: vectors of three scalars, used for points, directions and
//!   colours.
//! - [`ray`]: rays, their points, and the colour of a ray in a world.
//! - [`sphere`]: what every object of a scene offers, the record of a hit,
//!   and the sphere.
//! - [`hittable_list`]: the scene, which keeps the nearest hit of its
//!   objects.
//! - [`camera`]: the ray through a pixel and the text of a row of pixels.
//! - [`color`]: the text of a colour and of the header of a pixel map.
//! - [`common`]: the conversion of angles.
pub mod camera;
pub mod color;
pub mod common;
pub mod hittable_list;
pub mod order;
pub mod ray;
pub mod scalar;
pub mod sphere;
pub mod vec3;
