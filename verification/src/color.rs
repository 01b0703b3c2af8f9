use crate::gamma::{corrected, gamma8, is_corrected, lemma_corrected_is_corrected};
use embedded_graphics_core::pixelcolor::raw::RawU16;
use embedded_graphics_core::pixelcolor::{Rgb565, Rgb888, RgbColor};
use vstd::prelude::*;

verus! {

/// The red field of a 5-6-5 color: its five most significant bits.
pub open spec fn red5(rgb565: u16) -> int {
    (rgb565 as int / 2048) % 32
}

/// The green field of a 5-6-5 color: the six bits in the middle.
pub open spec fn green6(rgb565: u16) -> int {
    (rgb565 as int / 32) % 64
}

/// The blue field of a 5-6-5 color: its five least significant bits.
pub open spec fn blue5(rgb565: u16) -> int {
    rgb565 as int % 32
}

/// A channel value out of `0..=max` scaled to `0..=255` and rounded to the
/// nearest level.
pub open spec fn widened(value: int, max: int) -> int {
    (value * 255 + max / 2) / max
}

/// The three 8-bit linear levels (red, green, blue) of a 5-6-5 color.
pub open spec fn expanded(rgb565: u16) -> (u8, u8, u8) {
    (
        widened(red5(rgb565), 31) as u8,
        widened(green6(rgb565), 63) as u8,
        widened(blue5(rgb565), 31) as u8,
    )
}

/// The three levels (red, green, blue) that the frame buffer keeps for a
/// pixel of the color `rgb565`: its 8-bit expansion, each channel corrected.
pub open spec fn stored_levels(rgb565: u16) -> (u8, u8, u8) {
    (
        corrected(expanded(rgb565).0),
        corrected(expanded(rgb565).1),
        corrected(expanded(rgb565).2),
    )
}

/// Whether each of the three levels is a corrected level.
pub open spec fn all_corrected(levels: (u8, u8, u8)) -> bool {
    is_corrected(levels.0) && is_corrected(levels.1) && is_corrected(levels.2)
}

/// What is stored for a color are corrected levels, whatever the color.
pub proof fn lemma_stored_levels_corrected(rgb565: u16)
    ensures
        all_corrected(stored_levels(rgb565)),
{
    let linear = expanded(rgb565);
    lemma_corrected_is_corrected(linear.0);
    lemma_corrected_is_corrected(linear.1);
    lemma_corrected_is_corrected(linear.2);
}

/// Converts a 5-6-5 color to 8 bits per channel with embedded-graphics-core:
/// `RawU16::new` and `Rgb565::from` build the color from its raw storage,
/// `Rgb888::from` converts it, and `r`, `g` and `b` of `RgbColor` read the
/// result.
///
/// Trusted, not proved: the contract restates what that crate computes.
/// `Rgb565` keeps red in bits 11 to 15 of its storage, green in bits 5 to 10
/// and blue in bits 0 to 4, and the conversion scales each field from its
/// maximum (31, 63, 31) to 255 as `(value * 255 + max / 2) / max`.
#[verifier::external_body]
fn rgb565_to_rgb888(rgb565: u16) -> (levels: (u8, u8, u8))
    ensures
        levels == expanded(rgb565),
{
    let wide = Rgb888::from(Rgb565::from(RawU16::new(rgb565)));
    (wide.r(), wide.g(), wide.b())
}

/// Computes the levels to store for a pixel of the color `rgb565`.
pub fn levels_for(rgb565: u16) -> (levels: (u8, u8, u8))
    ensures
        levels == stored_levels(rgb565),
        all_corrected(levels),
{
    let (r, g, b) = rgb565_to_rgb888(rgb565);
    (gamma8(r), gamma8(g), gamma8(b))
}

} // verus!
