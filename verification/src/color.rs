//! Color quantization and 16-bit pixel packing.
//!
//! An iteration count becomes an RGB888 triple through fixed bit shifts that
//! deliberately wrap at eight bits, producing banded color rings; the triple
//! is then packed into a standard 5-6-5 16-bit value by truncating each
//! channel's low bits.

use vstd::prelude::*;

verus! {

/// Red channel for iteration count `i`: the low eight bits of `i << 3`.
pub open spec fn quant_red(i: u16) -> u8 {
    (i << 3) as u8
}

/// Green channel for iteration count `i`: the low eight bits of `i << 5`.
pub open spec fn quant_green(i: u16) -> u8 {
    (i << 5) as u8
}

/// Blue channel for iteration count `i`: the low eight bits of `i << 4`.
pub open spec fn quant_blue(i: u16) -> u8 {
    (i << 4) as u8
}

/// Map an iteration count to its RGB888 triple. The truncation to eight bits
/// wraps rather than saturates: count 32 yields (0, 0, 0) again.
pub fn iteration_color(i: u16) -> (rgb: (u8, u8, u8))
    ensures
        rgb.0 == quant_red(i),
        rgb.1 == quant_green(i),
        rgb.2 == quant_blue(i),
{
    ((i << 3) as u8, (i << 5) as u8, (i << 4) as u8)
}

/// RGB888 packed as 5-6-5: red's high five bits, green's high six, blue's
/// high five, from most to least significant.
pub open spec fn pack565(red: u8, green: u8, blue: u8) -> u16 {
    ((((red >> 3) & 0x1f) as u16) << 11) | ((((green >> 2) & 0x3f) as u16) << 5)
        | (((blue >> 3) & 0x1f) as u16)
}

/// Red channel recovered from a packed value, rescaled to its 8-bit position.
pub open spec fn unpack_red(native: u16) -> u8 {
    ((((native >> 11) & 0x1f) as u8) << 3) as u8
}

/// Green channel recovered from a packed value, rescaled to its 8-bit position.
pub open spec fn unpack_green(native: u16) -> u8 {
    ((((native >> 5) & 0x3f) as u8) << 2) as u8
}

/// Blue channel recovered from a packed value, rescaled to its 8-bit position.
pub open spec fn unpack_blue(native: u16) -> u8 {
    (((native & 0x1f) as u8) << 3) as u8
}

/// Pack an RGB888 triple into the native 16-bit 5-6-5 value, truncating:
/// no dithering, no rounding.
pub fn rgb_to_native(red: u8, green: u8, blue: u8) -> (native: u16)
    ensures
        native == pack565(red, green, blue),
{
    let r: u16 = (((red >> 3) & 0x1f) as u16) << 11;
    let g: u16 = (((green >> 2) & 0x3f) as u16) << 5;
    let b: u16 = ((blue >> 3) & 0x1f) as u16;
    r | g | b
}

/// Quantization only clears low bits: each channel unpacked from the packed
/// value is at most the original channel and falls short of it by less than
/// one quantization step (8 for the 5-bit fields, 4 for the 6-bit field).
pub proof fn lemma_pack_round_trip(red: u8, green: u8, blue: u8)
    ensures
        unpack_red(pack565(red, green, blue)) <= red,
        red < unpack_red(pack565(red, green, blue)) + 8,
        unpack_green(pack565(red, green, blue)) <= green,
        green < unpack_green(pack565(red, green, blue)) + 4,
        unpack_blue(pack565(red, green, blue)) <= blue,
        blue < unpack_blue(pack565(red, green, blue)) + 8,
{
    assert(unpack_red(pack565(red, green, blue)) <= red
        && red < unpack_red(pack565(red, green, blue)) + 8) by (bit_vector);
    assert(unpack_green(pack565(red, green, blue)) <= green
        && green < unpack_green(pack565(red, green, blue)) + 4) by (bit_vector);
    assert(unpack_blue(pack565(red, green, blue)) <= blue
        && blue < unpack_blue(pack565(red, green, blue)) + 8) by (bit_vector);
}

/// Quantization never reorders channel values: a channel that does not
/// decrease keeps a packed field that does not decrease.
pub proof fn lemma_pack_monotone(r1: u8, g1: u8, b1: u8, r2: u8, g2: u8, b2: u8)
    requires
        r1 <= r2,
        g1 <= g2,
        b1 <= b2,
    ensures
        unpack_red(pack565(r1, g1, b1)) <= unpack_red(pack565(r2, g2, b2)),
        unpack_green(pack565(r1, g1, b1)) <= unpack_green(pack565(r2, g2, b2)),
        unpack_blue(pack565(r1, g1, b1)) <= unpack_blue(pack565(r2, g2, b2)),
{
    assert(unpack_red(pack565(r1, g1, b1)) <= unpack_red(pack565(r2, g2, b2))) by (bit_vector)
        requires
            r1 <= r2,
    ;
    assert(unpack_green(pack565(r1, g1, b1)) <= unpack_green(pack565(r2, g2, b2)))
        by (bit_vector)
        requires
            g1 <= g2,
    ;
    assert(unpack_blue(pack565(r1, g1, b1)) <= unpack_blue(pack565(r2, g2, b2))) by (bit_vector)
        requires
            b1 <= b2,
    ;
}

} // verus!
