//! The pixel side of a path tracer: the image buffer that a render fills,
//! the driver that fills it pixel by pixel, and the PPM and PNG encodings
//! of the result.

pub mod image;
pub mod png_encoding;
pub mod ppm;
pub mod tracer;
