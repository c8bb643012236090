//! What is decided about the rectangles of a frame.

use vstd::prelude::*;

verus! {

/// How many corners the rectangles of a frame have at most.
pub const MAX_RECT_VERTICES: usize = 1200;

/// How many corners the two triangles of a rectangle have.
pub const VERTS_PER_RECT: usize = 6;

/// Whether another rectangle has room.
pub fn has_room(vertices: usize) -> (res: bool)
    ensures
        res == (vertices < MAX_RECT_VERTICES),
{
    vertices < MAX_RECT_VERTICES
}

/// While rectangles are added where there is room, their corners fit.
pub proof fn law_rectangles_fit(rectangles: nat)
    requires
        rectangles * VERTS_PER_RECT < MAX_RECT_VERTICES,
    ensures
        (rectangles + 1) * VERTS_PER_RECT <= MAX_RECT_VERTICES,
{
}

/// The red, green, blue and alpha of a color.
#[derive(Debug, Clone, Copy, PartialEq, Eq, Structural)]
pub struct Rgba {
    pub r: u8,
    pub g: u8,
    pub b: u8,
    pub a: u8,
}

/// The color that is written 0xRRGGBBAA.
pub open spec fn written(c: Rgba) -> int {
    c.r * 0x1000000 + c.g * 0x10000 + c.b * 0x100 + c.a
}

/// The parts of a color that is written 0xRRGGBBAA.
pub fn split_color(color: u32) -> (res: Rgba)
    ensures
        written(res) == color,
{
    let r: u32 = (color >> 24u32) & 0xFF;
    let g: u32 = (color >> 16u32) & 0xFF;
    let b: u32 = (color >> 8u32) & 0xFF;
    let a: u32 = color & 0xFF;
    assert(r <= 0xFF && g <= 0xFF && b <= 0xFF && a <= 0xFF && r * 0x1000000 + g * 0x10000 + b
        * 0x100 + a == color) by (bit_vector)
        requires
            r == (color >> 24u32) & 0xFF,
            g == (color >> 16u32) & 0xFF,
            b == (color >> 8u32) & 0xFF,
            a == color & 0xFF,
    ;
    Rgba { r: r as u8, g: g as u8, b: b as u8, a: a as u8 }
}

/// A color has only one red, green, blue and alpha.
pub proof fn law_parts_are_unique(c: Rgba, d: Rgba)
    requires
        written(c) == written(d),
    ensures
        c == d,
{
}

} // verus!
