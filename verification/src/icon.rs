//! The picture of the program: two arrows in opposite directions on a rounded blue square.

use vstd::prelude::*;

verus! {

/// How many pixels the picture is wide and high.
pub const ICON_SIZE: usize = 32;

/// A colour with its opacity.
#[derive(Debug, Clone, Copy, PartialEq, Eq, Structural)]
pub struct Pixel {
    pub red: u8,
    pub green: u8,
    pub blue: u8,
    pub alpha: u8,
}

/// The colour of the square.
pub open spec fn accent() -> Pixel {
    Pixel { red: 88, green: 166, blue: 255, alpha: 255 }
}

/// The colour of the arrows.
pub open spec fn white() -> Pixel {
    Pixel { red: 255, green: 255, blue: 255, alpha: 255 }
}

/// No colour at all.
pub open spec fn clear() -> Pixel {
    Pixel { red: 0, green: 0, blue: 0, alpha: 0 }
}

/// How far the middle of a pixel lies beyond the straight part of a side, in half pixels; zero where
/// it does not.
pub open spec fn overhang(at: int) -> int {
    let from_middle = if 2 * at + 1 >= 32 {
        2 * at + 1 - 32
    } else {
        32 - 2 * at - 1
    };
    if from_middle > 16 {
        from_middle - 16
    } else {
        0
    }
}

/// Whether the middle of a pixel lies in the square, whose corners are rounded by eight pixels.
pub open spec fn in_square(x: int, y: int) -> bool {
    overhang(x) * overhang(x) + overhang(y) * overhang(y) < 256
}

/// Whether a pixel belongs to the upper arrow, which points to the right.
pub open spec fn in_upper_arrow(x: int, y: int) -> bool {
    ||| 11 <= y <= 13 && 9 <= x <= 21
    ||| 21 <= x <= 24 && -(24 - x) <= y - 12 <= 24 - x
}

/// Whether a pixel belongs to the lower arrow, which points to the left.
pub open spec fn in_lower_arrow(x: int, y: int) -> bool {
    ||| 19 <= y <= 21 && 11 <= x <= 23
    ||| 8 <= x <= 11 && -(x - 8) <= y - 20 <= x - 8
}

/// The colour of a pixel.
pub open spec fn pixel_of(x: int, y: int) -> Pixel {
    if in_upper_arrow(x, y) || in_lower_arrow(x, y) {
        white()
    } else if in_square(x, y) {
        accent()
    } else {
        clear()
    }
}

fn overhang_of(at: usize) -> (far: usize)
    requires
        at < 32,
    ensures
        far == overhang(at as int),
        far <= 15,
{
    let twice: usize = 2 * at + 1;
    let from_middle: usize = if twice >= 32 {
        twice - 32
    } else {
        32 - twice
    };
    if from_middle > 16 {
        from_middle - 16
    } else {
        0
    }
}

/// The colour of a pixel.
pub fn icon_pixel(x: usize, y: usize) -> (pixel: Pixel)
    requires
        x < ICON_SIZE,
        y < ICON_SIZE,
    ensures
        pixel == pixel_of(x as int, y as int),
{
    let far_from_upper: usize = if y >= 12 {
        y - 12
    } else {
        12 - y
    };
    let far_from_lower: usize = if y >= 20 {
        y - 20
    } else {
        20 - y
    };
    let upper = (11 <= y && y <= 13 && 9 <= x && x <= 21) || (21 <= x && x <= 24 && far_from_upper
        <= 24 - x);
    let lower = (19 <= y && y <= 21 && 11 <= x && x <= 23) || (8 <= x && x <= 11 && far_from_lower
        <= x - 8);
    if upper || lower {
        return Pixel { red: 255, green: 255, blue: 255, alpha: 255 };
    }
    let across = overhang_of(x);
    let down = overhang_of(y);
    proof {
        assert(across * across <= 225) by (nonlinear_arith)
            requires
                0 <= across <= 15,
        ;
        assert(down * down <= 225) by (nonlinear_arith)
            requires
                0 <= down <= 15,
        ;
    }
    if across * across + down * down < 256 {
        Pixel { red: 88, green: 166, blue: 255, alpha: 255 }
    } else {
        Pixel { red: 0, green: 0, blue: 0, alpha: 0 }
    }
}

/// Whether four bytes from a position on are the colour of a pixel.
pub open spec fn holds_pixel(rgba: Seq<u8>, at: int, pixel: Pixel) -> bool {
    &&& rgba[at] == pixel.red
    &&& rgba[at + 1] == pixel.green
    &&& rgba[at + 2] == pixel.blue
    &&& rgba[at + 3] == pixel.alpha
}

/// The column of the pixel of a number, row by row.
pub open spec fn column(number: int) -> int {
    number % 32
}

/// The row of the pixel of a number, row by row.
pub open spec fn row(number: int) -> int {
    number / 32
}

/// The picture row by row, four bytes for each pixel.
pub fn app_icon() -> (rgba: Vec<u8>)
    ensures
        rgba@.len() == 4 * 32 * 32,
        forall|number: int|
            0 <= number < 32 * 32 ==> #[trigger] holds_pixel(
                rgba@,
                4 * number,
                pixel_of(column(number), row(number)),
            ),
{
    let mut rgba: Vec<u8> = Vec::new();
    let mut number: usize = 0;
    while number < 1024
        invariant
            number <= 1024,
            rgba@.len() == 4 * number,
            forall|n: int|
                0 <= n < number ==> #[trigger] holds_pixel(
                    rgba@,
                    4 * n,
                    pixel_of(column(n), row(n)),
                ),
        decreases 1024 - number,
    {
        let ghost before = rgba@;
        let pixel = icon_pixel(number % 32, number / 32);
        rgba.push(pixel.red);
        rgba.push(pixel.green);
        rgba.push(pixel.blue);
        rgba.push(pixel.alpha);
        proof {
            assert forall|n: int| 0 <= n < number + 1 implies #[trigger] holds_pixel(
                rgba@,
                4 * n,
                pixel_of(column(n), row(n)),
            ) by {
                if n < number {
                    assert(holds_pixel(before, 4 * n, pixel_of(column(n), row(n))));
                }
            }
        }
        number += 1;
    }
    rgba
}

/// The square looks the same from every side.
pub proof fn square_is_symmetric(x: int, y: int)
    ensures
        in_square(x, y) == in_square(31 - x, y),
        in_square(x, y) == in_square(x, 31 - y),
        in_square(x, y) == in_square(y, x),
{
    assert(overhang(x) == overhang(31 - x));
    assert(overhang(y) == overhang(31 - y));
}

/// Turned half around, one arrow covers the other.
pub proof fn arrows_are_turned(x: int, y: int)
    ensures
        in_lower_arrow(x, y) == in_upper_arrow(32 - x, 32 - y),
{
}

}
