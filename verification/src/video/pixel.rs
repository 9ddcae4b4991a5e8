//! Packed pixel format: 32-bit words laid out as `0x00RRGGBB`
//! (the red byte is the highest of the three colour bytes).

use vstd::prelude::*;

verus! {

/// The red channel of a packed pixel.
pub open spec fn red_of(packed: u32) -> u8 {
    ((packed >> 16u32) & 0xFFu32) as u8
}

/// The green channel of a packed pixel.
pub open spec fn green_of(packed: u32) -> u8 {
    ((packed >> 8u32) & 0xFFu32) as u8
}

/// The blue channel of a packed pixel.
pub open spec fn blue_of(packed: u32) -> u8 {
    (packed & 0xFFu32) as u8
}

/// The packed pixel for the three channels, as a number.
pub open spec fn packed_value(red: u8, green: u8, blue: u8) -> int {
    red as int * 65536 + green as int * 256 + blue as int
}

/// Splits a packed pixel into its (red, green, blue) bytes.
pub fn unpack_rgb(packed: u32) -> (rgb: (u8, u8, u8))
    ensures
        rgb == (red_of(packed), green_of(packed), blue_of(packed)),
{
    (((packed >> 16) & 0xFF) as u8, ((packed >> 8) & 0xFF) as u8, (packed & 0xFF) as u8)
}

/// Packs (red, green, blue) bytes into one pixel.
pub fn pack_rgb(red: u8, green: u8, blue: u8) -> (packed: u32)
    ensures
        packed as int == packed_value(red, green, blue),
{
    let r = red as u32;
    let g = green as u32;
    let b = blue as u32;
    assert((r << 16u32) | (g << 8u32) | b == r * 65536 + g * 256 + b) by (bit_vector)
        requires
            r < 256,
            g < 256,
            b < 256,
    ;
    (r << 16) | (g << 8) | b
}

/// Unpacking a packed pixel gives back the channels it was packed from.
pub proof fn lemma_unpack_pack(red: u8, green: u8, blue: u8, packed: u32)
    requires
        packed as int == packed_value(red, green, blue),
    ensures
        red_of(packed) == red,
        green_of(packed) == green,
        blue_of(packed) == blue,
{
    let r = red as u32;
    let g = green as u32;
    let b = blue as u32;
    assert(packed == r * 65536 + g * 256 + b);
    assert(((packed >> 16u32) & 0xFFu32) == r && ((packed >> 8u32) & 0xFFu32) == g && (packed
        & 0xFFu32) == b) by (bit_vector)
        requires
            r < 256,
            g < 256,
            b < 256,
            packed == r * 65536 + g * 256 + b,
    ;
}

/// Packing the unpacked channels of a pixel gives back its low 24 bits.
pub proof fn lemma_pack_unpack(packed: u32)
    ensures
        packed_value(red_of(packed), green_of(packed), blue_of(packed)) == (packed & 0xFF_FFFFu32) as int,
{
    let r = (packed >> 16u32) & 0xFFu32;
    let g = (packed >> 8u32) & 0xFFu32;
    let b = packed & 0xFFu32;
    assert(((packed >> 16u32) & 0xFFu32) < 256 && ((packed >> 8u32) & 0xFFu32) < 256 && (packed
        & 0xFFu32) < 256 && ((packed >> 16u32) & 0xFFu32) * 65536 + ((packed >> 8u32) & 0xFFu32)
        * 256 + (packed & 0xFFu32) == (packed & 0xFF_FFFFu32)) by (bit_vector);
    assert(red_of(packed) as int == r as int);
    assert(green_of(packed) as int == g as int);
    assert(blue_of(packed) as int == b as int);
}


/// Where the channels sit in a packed pixel, as numbers: blue is the
/// lowest byte, green the next, red the one above (`0x00RRGGBB`).
pub proof fn lemma_channel_positions(packed: u32)
    ensures
        red_of(packed) as int == packed as int / 65536 % 256,
        green_of(packed) as int == packed as int / 256 % 256,
        blue_of(packed) as int == packed as int % 256,
{
    assert(((packed >> 16u32) & 0xFFu32) == packed / 65536 % 256 && ((packed >> 8u32) & 0xFFu32)
        == packed / 256 % 256 && (packed & 0xFFu32) == packed % 256) by (bit_vector);
}

} // verus!
