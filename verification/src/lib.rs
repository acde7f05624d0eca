//! Kodak is a crate for image creation and manipulation.
//!
//! An [`Image`] is an owned, row-major buffer of [`Colour`] values together
//! with its width and height. Images are built blank or from raw bytes,
//! transformed by consuming operations (`fill`, `fill_region`, `crop`,
//! `overlay`), and inspected pixel by pixel. The geometric primitives
//! [`Loc`], [`Dim`] and [`Region`] carry the coordinate arithmetic that the
//! image operations are specified and proved against.

pub mod colour;
pub mod geometry;
pub mod image;

pub use colour::Colour;
pub use geometry::Dim;
pub use geometry::Loc;
pub use geometry::Region;
pub use image::Image;
