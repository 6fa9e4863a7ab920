//! The colour of a pixel, derived from the number of passes its orbit survived.
//!
//! Green is the pass count stretched three times over the byte range and cut
//! to its low eight bits, blue is green times four cut the same way, and red
//! follows a sine wave driven by the blue byte. The wrap-around is what gives
//! the picture its bands.

use vstd::prelude::*;

verus! {

/// One pixel, in the order its bytes are stored.
#[derive(Clone, Copy, Debug, PartialEq, Eq, Structural)]
pub struct Rgb {
    pub red: u8,
    pub green: u8,
    pub blue: u8,
}

/// How far the gradient runs before it is cut to a byte: three times 255.
pub const GRADIENT_SPAN: u64 = 765;

/// Red for every blue byte: `255 * sin(blue / 3)` with `blue / 3` in radians,
/// rounded to the nearest integer; the negative half of the wave is shown as 0.
pub const RED_BY_BLUE: [u8; 256] = [
    0, 83, 158, 215, 248, 254, 232, 184, 117, 36, 0, 0, 0, 0, 0, 0,
    0, 0, 0, 13, 95, 168, 221, 251, 252, 226, 175, 105, 23, 0, 0, 0,
    0, 0, 0, 0, 0, 0, 26, 107, 177, 227, 253, 250, 220, 166, 93, 11,
    0, 0, 0, 0, 0, 0, 0, 0, 0, 38, 119, 186, 233, 254, 247, 213,
    156, 81, 0, 0, 0, 0, 0, 0, 0, 0, 0, 0, 51, 130, 194, 238,
    255, 244, 206, 146, 69, 0, 0, 0, 0, 0, 0, 0, 0, 0, 0, 63,
    141, 202, 242, 255, 240, 198, 135, 57, 0, 0, 0, 0, 0, 0, 0, 0,
    0, 0, 76, 151, 210, 246, 254, 235, 190, 124, 44, 0, 0, 0, 0, 0,
    0, 0, 0, 0, 5, 88, 161, 217, 249, 253, 230, 181, 113, 32, 0, 0,
    0, 0, 0, 0, 0, 0, 0, 17, 100, 171, 223, 251, 252, 224, 172, 101,
    19, 0, 0, 0, 0, 0, 0, 0, 0, 0, 30, 111, 180, 229, 253, 249,
    218, 162, 89, 6, 0, 0, 0, 0, 0, 0, 0, 0, 0, 43, 123, 189,
    235, 254, 246, 211, 152, 77, 0, 0, 0, 0, 0, 0, 0, 0, 0, 0,
    55, 134, 197, 239, 255, 243, 203, 142, 65, 0, 0, 0, 0, 0, 0, 0,
    0, 0, 0, 68, 144, 205, 243, 255, 238, 195, 131, 52, 0, 0, 0, 0,
    0, 0, 0, 0, 0, 0, 80, 155, 213, 247, 254, 233, 187, 120, 40, 0,
];

/// The pass count on the gradient: the whole part of
/// `iterations * 765 / max_iterations`.
pub open spec fn gradient_of(iterations: int, max_iterations: int) -> int {
    (GRADIENT_SPAN * iterations) / max_iterations
}

/// Green is the low eight bits of the gradient value.
pub open spec fn green_of(iterations: int, max_iterations: int) -> u8 {
    (gradient_of(iterations, max_iterations) % 256) as u8
}

/// Blue is the low eight bits of four times green.
pub open spec fn blue_of(green: u8) -> u8 {
    ((green * 4) % 256) as u8
}

/// Red is read off the sine table at the blue byte.
pub open spec fn red_of(blue: u8) -> u8 {
    RED_BY_BLUE@[blue as int]
}

/// The colour that belongs to a pass count.
pub open spec fn shade_of(iterations: int, max_iterations: int) -> Rgb {
    let green = green_of(iterations, max_iterations);
    let blue = blue_of(green);
    Rgb { red: red_of(blue), green, blue }
}

/// The green byte for a pass count.
pub fn green(iterations: u32, max_iterations: u32) -> (g: u8)
    requires
        max_iterations > 0,
    ensures
        g == green_of(iterations as int, max_iterations as int),
{
    let stretched: u64 = GRADIENT_SPAN * (iterations as u64);
    let whole: u64 = stretched / (max_iterations as u64);
    (whole % 256) as u8
}

/// The blue byte for a green byte.
pub fn blue(green: u8) -> (b: u8)
    ensures
        b == blue_of(green),
{
    let wide: u16 = (green as u16) * 4;
    (wide % 256) as u8
}

/// The red byte for a blue byte.
pub fn red(blue: u8) -> (r: u8)
    ensures
        r == red_of(blue),
{
    RED_BY_BLUE[blue as usize]
}

/// The colour of a pixel whose orbit survived `iterations` passes out of
/// at most `max_iterations`. The same count always gives the same colour.
pub fn shade(iterations: u32, max_iterations: u32) -> (color: Rgb)
    requires
        max_iterations > 0,
    ensures
        color == shade_of(iterations as int, max_iterations as int),
{
    let g: u8 = green(iterations, max_iterations);
    let b: u8 = blue(g);
    Rgb { red: red(b), green: g, blue: b }
}

} // verus!
