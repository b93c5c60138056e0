//! The image that the turtle draws on, from the `unsvg` crate.
//!
//! The wrappers here are trusted: each states what `unsvg`'s source shows
//! of the function it calls, and nothing about them is proved.

use vstd::prelude::*;
use unsvg::Image;

verus! {

/// `unsvg::Image`, an SVG drawing; opaque to the proofs.
#[verifier::external_type_specification]
#[verifier::external_body]
pub struct ExImage(Image);

/// The largest sum of a coordinate's size and a line's length for which
/// `unsvg`'s floating-point computation of a line's end stays within
/// `i32`: `f32` rounding moves the end by a few hundred units at most near
/// `2^31`, and `unsvg` panics when the rounded end does not fit in `i32`.
pub open spec fn coordinate_limit() -> int {
    0x7FFF_FC00
}

/// The magnitude of an integer.
pub open spec fn magnitude(v: int) -> int {
    if v < 0 {
        -v
    } else {
        v
    }
}

/// A line from `(x, y)` of length `length` (in any direction) stays in
/// the range where `unsvg` computes its end without panicking.
pub open spec fn line_in_range(x: i32, y: i32, length: i32) -> bool {
    magnitude(x as int) + magnitude(length as int) <= coordinate_limit() && magnitude(y as int)
        + magnitude(length as int) <= coordinate_limit()
}

/// A point of the image, `(x, y)`.
pub type EndPoint = (i32, i32);

/// A line of an image: start `x`, start `y`, end `x`, end `y`, palette index.
pub type ImageLine = (i32, i32, i32, i32, u32);

/// The integers that `f32` holds exactly (all those of size at most `2^24`).
pub open spec fn exact_in_f32(v: i32) -> bool {
    -0x100_0000 <= v <= 0x100_0000
}

/// The lines of an `unsvg::Image`: its stroked paths in the order they were
/// added, each as its start point, its end point (stored in `f32`, taken
/// to the nearest integer) and the index of its colour in
/// `unsvg::COLORS` (whose 16 colours are distinct). The black background
/// that `Image::new` adds is a filled path, not a line.
pub uninterp spec fn image_lines(image: Image) -> Seq<ImageLine>;

/// The size of an `unsvg::Image`, `(width, height)`, as it was made with
/// `Image::new` and as `Image::get_dimensions` returns it.
pub uninterp spec fn image_size(image: Image) -> (u32, u32);

/// Decides `line_in_range`.
pub fn check_line_in_range(x: i32, y: i32, length: i32) -> (b: bool)
    ensures
        b == line_in_range(x, y, length),
{
    let ax: i64 = if x < 0 {
        -(x as i64)
    } else {
        x as i64
    };
    let ay: i64 = if y < 0 {
        -(y as i64)
    } else {
        y as i64
    };
    let al: i64 = if length < 0 {
        -(length as i64)
    } else {
        length as i64
    };
    ax + al <= 0x7FFF_FC00 && ay + al <= 0x7FFF_FC00
}

/// Calls `unsvg::get_end_coordinates`, which moves `(x, y)` by `length`
/// along `direction` degrees in `f32` arithmetic with `sin` and `cos`.
/// Those are not exact and may differ between platforms and calls, so
/// nothing is stated of the point returned but that a line of length 0
/// from a point `f32` holds exactly ends where it starts (the start is
/// quantised to 1/256, which keeps such a point, and moved by `0.0`). The
/// arguments are kept where the conversion of the end back to `i32` cannot
/// panic.
#[verifier::external_body]
pub(crate) fn get_end_coordinates(x: i32, y: i32, direction: i32, length: i32) -> (r: EndPoint)
    requires
        line_in_range(x, y, length),
    ensures
        length == 0 && exact_in_f32(x) && exact_in_f32(y) ==> r == (x, y),
{
    unsvg::get_end_coordinates(x, y, direction, length)
}

/// Calls `unsvg::Image::new(width, height)`, which panics on a zero
/// width or height. The new image is `width` by `height` and has no lines.
#[verifier::external_body]
pub(crate) fn new_image(width: u32, height: u32) -> (image: Image)
    requires
        width > 0,
        height > 0,
    ensures
        image_lines(image) == Seq::<ImageLine>::empty(),
        image_size(image) == (width, height),
{
    Image::new(width, height)
}

/// Calls `Image::draw_simple_line` with colour `unsvg::COLORS[color]`.
/// Its source computes the end with `get_end_coordinates`, appends one
/// stroked path from the start to that end in that colour, and returns the
/// end; its only error comes from a path with non-finite points, which
/// these arguments cannot give. The size is left as it was. Start and end
/// are stored as `f32`, so they are stated where `f32` holds them exactly.
#[verifier::external_body]
pub(crate) fn draw_simple_line(image: &mut Image, x: i32, y: i32, direction: i32, length: i32, color: u32) -> (r: Result<EndPoint, String>)
    requires
        color < 16,
        line_in_range(x, y, length),
    ensures
        r is Ok,
        image_size(*final(image)) == image_size(*old(image)),
        image_lines(*final(image)).len() == image_lines(*old(image)).len() + 1,
        image_lines(*final(image)).subrange(0, image_lines(*old(image)).len() as int)
            == image_lines(*old(image)),
        image_lines(*final(image)).last().4 == color,
        exact_in_f32(x) ==> image_lines(*final(image)).last().0 == x,
        exact_in_f32(y) ==> image_lines(*final(image)).last().1 == y,
        exact_in_f32(r->Ok_0.0) ==> image_lines(*final(image)).last().2 == r->Ok_0.0,
        exact_in_f32(r->Ok_0.1) ==> image_lines(*final(image)).last().3 == r->Ok_0.1,
{
    image.draw_simple_line(x, y, direction, length, unsvg::COLORS[color as usize])
}

} // verus!
