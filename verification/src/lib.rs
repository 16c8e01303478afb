//! A pixel sink for a firmware-reported linear framebuffer.
//!
//! The sink owns a byte region standing for the framebuffer, together with the
//! geometry the firmware reported at boot: width, height, row stride (in
//! pixels) and a raw pixel-format tag. It accepts (point, color) pairs,
//! converts each color to the byte order the hardware declared, computes the
//! linear byte offset with overflow-safe arithmetic, and commits the bytes
//! only when the point lies inside the reported resolution.

pub mod addr;
pub mod pixel;
pub mod sink;

pub use addr::checked_offset;
pub use pixel::{convert, Color, PixelFormat, Point};
pub use sink::{UefiDisplay, Unsupported};
