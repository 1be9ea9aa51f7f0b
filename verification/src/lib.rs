//! Integer core of a Monte-Carlo path tracer: render configuration,
//! 8-bit pixel colors, round-robin scanline scheduling for worker
//! threads, and assembly of the final row-major image buffer.
//!
//! The floating-point parts of the renderer (vector arithmetic,
//! ray-sphere intersection, material scattering, the camera model and
//! the radiance recursion) live outside this library, in the
//! unverified driver that links against it.

pub mod color;
pub mod framebuffer;
pub mod schedule;
pub mod viewport;

pub use color::RGBColour;
pub use viewport::Viewport;
