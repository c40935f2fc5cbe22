//! The procedural checkerboard texture laid on the ground and on the crate.
use vstd::prelude::*;
use crate::mesh::{lemma_next_row, lemma_row_major_lt};

verus! {

/// Pixel (x, y) lies in a dark square of a checkerboard whose squares are
/// `check` pixels wide: the square's column and row numbers have an even sum.
pub open spec fn is_dark_square(x: int, y: int, check: int) -> bool {
    ((x / check) + (y / check)) % 2 == 0
}

/// Channel `ch` (red, green, blue, alpha) of pixel (x, y): dark squares are
/// RGB (34, 110, 34), light squares RGB (60, 179, 60), and every pixel is
/// fully opaque.
pub open spec fn checker_channel(x: int, y: int, check: int, ch: int) -> int {
    if ch == 3 {
        255
    } else if is_dark_square(x, y, check) {
        if ch == 1 {
            110
        } else {
            34
        }
    } else {
        if ch == 1 {
            179
        } else {
            60
        }
    }
}

/// Position in the RGBA8 buffer of channel `ch` of pixel (x, y) of an image
/// `size` pixels wide, rows stored top to bottom.
pub open spec fn pixel_byte(size: int, x: int, y: int, ch: int) -> int {
    4 * (y * size + x) + ch
}

/// The RGBA8 pixels of the `size` x `size` checkerboard with squares of
/// `check_size` pixels (`create_checkerboard_texture` in the renderer, which
/// uploads them). The square size may be zero only for an empty image (each
/// pixel's square is found by dividing by it), and the byte count must fit in
/// a `u32`, which is how the buffer size is computed.
pub fn checkerboard_pixels(size: u32, check_size: u32) -> (pixels: Vec<u8>)
    requires
        check_size > 0 || size == 0,
        size * size * 4 <= u32::MAX,
    ensures
        pixels@.len() == 4 * (size * size),
        forall|x: int, y: int, ch: int|
            0 <= x < size && 0 <= y < size && 0 <= ch < 4 ==> #[trigger] pixels@[pixel_byte(
                size as int,
                x,
                y,
                ch,
            )] == checker_channel(x, y, check_size as int, ch),
{
    let mut pixels: Vec<u8> = Vec::new();
    let mut y: u32 = 0;
    while y < size
        invariant
            check_size > 0 || size == 0,
            y <= size,
            pixels@.len() == 4 * (y * size),
            forall|px: int, py: int, ch: int|
                0 <= px < size && 0 <= py < y && 0 <= ch < 4 ==> #[trigger] pixels@[pixel_byte(
                    size as int,
                    px,
                    py,
                    ch,
                )] == checker_channel(px, py, check_size as int, ch),
        decreases size - y,
    {
        let mut x: u32 = 0;
        while x < size
            invariant
                check_size > 0,
                y < size,
                x <= size,
                pixels@.len() == 4 * (y * size + x),
                forall|px: int, py: int, ch: int|
                    0 <= px < size && 0 <= py < y && 0 <= ch < 4 ==> #[trigger] pixels@[pixel_byte(
                        size as int,
                        px,
                        py,
                        ch,
                    )] == checker_channel(px, py, check_size as int, ch),
                forall|px: int, ch: int|
                    0 <= px < x && 0 <= ch < 4 ==> #[trigger] pixels@[pixel_byte(
                        size as int,
                        px,
                        y as int,
                        ch,
                    )] == checker_channel(px, y as int, check_size as int, ch),
            decreases size - x,
        {
            let dark: bool = ((x / check_size) as u64 + (y / check_size) as u64) % 2 == 0;
            let (r, g, b): (u8, u8, u8) = if dark {
                (34, 110, 34)
            } else {
                (60, 179, 60)
            };
            let ghost before = pixels@;
            proof {
                assert forall|px: int, py: int, ch: int|
                    (0 <= px < size && 0 <= py < y && 0 <= ch < 4) || (py == y && 0 <= px < x && 0
                        <= ch < 4) implies pixel_byte(size as int, px, py, ch) < before.len() by {
                    lemma_row_major_lt(size as int, py, px, y as int, x as int);
                }
            }
            pixels.push(r);
            pixels.push(g);
            pixels.push(b);
            pixels.push(255);
            assert forall|px: int, ch: int| 0 <= px < x + 1 && 0 <= ch < 4 implies #[trigger] pixels@[pixel_byte(
                size as int,
                px,
                y as int,
                ch,
            )] == checker_channel(px, y as int, check_size as int, ch) by {
                if px == x {
                    assert(pixel_byte(size as int, px, y as int, ch) == before.len() + ch);
                }
            }
            x = x + 1;
        }
        proof {
            lemma_next_row(size as int, y as int);
        }
        y = y + 1;
    }
    pixels
}

/// The colours written out: every pixel is opaque, dark squares are
/// RGB (34, 110, 34), light squares RGB (60, 179, 60), and the square at the
/// top-left corner is dark. Channel `ch` of pixel (x, y) sits at byte
/// 4 (y size + x) + ch.
pub proof fn lemma_checker_colours(x: int, y: int, check: int, size: int, ch: int)
    requires
        check > 0,
    ensures
        checker_channel(x, y, check, 3) == 255,
        is_dark_square(x, y, check) ==> checker_channel(x, y, check, 0) == 34 && checker_channel(
            x,
            y,
            check,
            1,
        ) == 110 && checker_channel(x, y, check, 2) == 34,
        !is_dark_square(x, y, check) ==> checker_channel(x, y, check, 0) == 60 && checker_channel(
            x,
            y,
            check,
            1,
        ) == 179 && checker_channel(x, y, check, 2) == 60,
        0 <= x < check && 0 <= y < check ==> is_dark_square(x, y, check),
        pixel_byte(size, x, y, ch) == 4 * (y * size + x) + ch,
{
    if 0 <= x < check && 0 <= y < check {
        vstd::arithmetic::div_mod::lemma_basic_div(x, check);
        vstd::arithmetic::div_mod::lemma_basic_div(y, check);
    }
}

/// Moving one square width to the right, or one square height down, always
/// crosses from a dark square to a light one or back.
pub proof fn lemma_neighbouring_squares_alternate(x: int, y: int, check: int)
    requires
        check > 0,
    ensures
        is_dark_square(x + check, y, check) == !is_dark_square(x, y, check),
        is_dark_square(x, y + check, check) == !is_dark_square(x, y, check),
{
    vstd::arithmetic::div_mod::lemma_div_plus_one(x, check);
    vstd::arithmetic::div_mod::lemma_div_plus_one(y, check);
    assert(check + x == x + check);
    assert(check + y == y + check);
}

/// Pixels in the same square share a colour.
pub proof fn lemma_square_is_uniform(x1: int, y1: int, x2: int, y2: int, check: int, ch: int)
    requires
        check > 0,
        x1 / check == x2 / check,
        y1 / check == y2 / check,
    ensures
        checker_channel(x1, y1, check, ch) == checker_channel(x2, y2, check, ch),
{
}

/// The pattern repeats every two squares in both directions.
pub proof fn lemma_pattern_period(x: int, y: int, check: int)
    requires
        check > 0,
    ensures
        is_dark_square(x + 2 * check, y, check) == is_dark_square(x, y, check),
        is_dark_square(x, y + 2 * check, check) == is_dark_square(x, y, check),
{
    lemma_neighbouring_squares_alternate(x, y, check);
    lemma_neighbouring_squares_alternate(x + check, y, check);
    lemma_neighbouring_squares_alternate(x, y + check, check);
    assert(x + check + check == x + 2 * check);
    assert(y + check + check == y + 2 * check);
}

} // verus!
