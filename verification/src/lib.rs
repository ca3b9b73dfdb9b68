//! Safe 2D graphics primitives: an exact affine transform algebra and
//! plain mouse input identifiers.
//!
//! The heart of the crate is [`transform::Transform`], a 3x3 affine
//! transformation matrix over exact rational coordinates, with
//! verified construction, combination, exact inversion and
//! application to points and rectangles.

pub mod mouse;
pub mod transform;
