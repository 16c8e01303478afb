//! Colors, points, and the hardware pixel formats the sink understands.

use vstd::prelude::*;

verus! {

/// Firmware tag for the 8-bit-per-channel red-green-blue layout.
pub const PIXEL_TAG_RGB: u32 = 0;

/// Firmware tag for the 8-bit-per-channel blue-green-red layout.
pub const PIXEL_TAG_BGR: u32 = 1;

/// A recognized hardware channel order.
///
/// Firmware reports the format as a raw tag; only the two tags above map to a
/// variant here. Every other tag is outside the supported set, and a sink
/// built with one reports `Unsupported` on every draw call.
#[derive(Clone, Copy, PartialEq, Eq, Structural, Debug)]
pub enum PixelFormat {
    /// Red, green, blue.
    Rgb,
    /// Blue, green, red.
    Bgr,
}

/// An 8-bit-per-channel color, order-agnostic at the API boundary.
#[derive(Clone, Copy, PartialEq, Eq, Structural, Debug)]
pub struct Color {
    pub r: u8,
    pub g: u8,
    pub b: u8,
}

/// A pixel coordinate, origin top-left. Both coordinates are unbounded at the
/// API surface: they may be negative or exceed the resolution, and the sink
/// must cope rather than assume them valid.
#[derive(Clone, Copy, PartialEq, Eq, Structural, Debug)]
pub struct Point {
    pub x: i32,
    pub y: i32,
}

impl Color {
    pub fn new(r: u8, g: u8, b: u8) -> (c: Color)
        ensures
            c == (Color { r, g, b }),
    {
        Color { r, g, b }
    }
}

impl Point {
    pub fn new(x: i32, y: i32) -> (p: Point)
        ensures
            p == (Point { x, y }),
    {
        Point { x, y }
    }
}

/// Whether a raw firmware format tag names a layout the sink supports.
pub open spec fn recognized_tag(tag: u32) -> bool {
    tag == PIXEL_TAG_RGB || tag == PIXEL_TAG_BGR
}

/// The format a raw firmware tag names, if any.
pub open spec fn format_of_tag(tag: u32) -> Option<PixelFormat> {
    if tag == PIXEL_TAG_RGB {
        Some(PixelFormat::Rgb)
    } else if tag == PIXEL_TAG_BGR {
        Some(PixelFormat::Bgr)
    } else {
        None
    }
}

impl PixelFormat {
    /// Decode a raw firmware format tag.
    pub fn from_tag(tag: u32) -> (r: Option<PixelFormat>)
        ensures
            r == format_of_tag(tag),
    {
        if tag == PIXEL_TAG_RGB {
            Some(PixelFormat::Rgb)
        } else if tag == PIXEL_TAG_BGR {
            Some(PixelFormat::Bgr)
        } else {
            None
        }
    }
}

/// The three significant bytes of one pixel cell, in the hardware's declared
/// channel order. The fourth byte of a cell is padding and is never written.
pub open spec fn encode_spec(c: Color, f: PixelFormat) -> Seq<u8> {
    match f {
        PixelFormat::Rgb => seq![c.r, c.g, c.b],
        PixelFormat::Bgr => seq![c.b, c.g, c.r],
    }
}

/// `encode_spec` looked up through a raw tag; meaningful only when the tag is
/// recognized.
pub open spec fn encode_tag(c: Color, tag: u32) -> Seq<u8> {
    if tag == PIXEL_TAG_RGB {
        encode_spec(c, PixelFormat::Rgb)
    } else {
        encode_spec(c, PixelFormat::Bgr)
    }
}

/// Pixel format converter: emit the three color bytes in hardware order.
pub fn convert(c: Color, f: PixelFormat) -> (r: (u8, u8, u8))
    ensures
        r.0 == encode_spec(c, f)[0],
        r.1 == encode_spec(c, f)[1],
        r.2 == encode_spec(c, f)[2],
{
    match f {
        PixelFormat::Rgb => (c.r, c.g, c.b),
        PixelFormat::Bgr => (c.b, c.g, c.r),
    }
}

/// The two supported encodings of one color swap the first and third byte and
/// agree on the middle byte.
pub proof fn lemma_rgb_bgr_swap(c: Color)
    ensures
        encode_spec(c, PixelFormat::Rgb)[0] == encode_spec(c, PixelFormat::Bgr)[2],
        encode_spec(c, PixelFormat::Rgb)[1] == encode_spec(c, PixelFormat::Bgr)[1],
        encode_spec(c, PixelFormat::Rgb)[2] == encode_spec(c, PixelFormat::Bgr)[0],
{
}

} // verus!
