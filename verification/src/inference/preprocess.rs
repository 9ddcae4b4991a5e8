//! Preparing a crop of the frame for OCR: white game text becomes black
//! text on white.

use vstd::prelude::*;

verus! {

/// The OCR image value of a pixel: black (0) where red, green and blue
/// all reach `threshold` (the core of white text), white (255) elsewhere.
pub open spec fn mask_value(red: u8, green: u8, blue: u8, threshold: u8) -> u8 {
    if red >= threshold && green >= threshold && blue >= threshold {
        0
    } else {
        255
    }
}

/// The OCR image value of the pixel (red, green, blue).
pub fn white_text_mask(red: u8, green: u8, blue: u8, threshold: u8) -> (value: u8)
    ensures
        value == mask_value(red, green, blue, threshold),
{
    if red >= threshold && green >= threshold && blue >= threshold {
        0
    } else {
        255
    }
}

/// A pixel is text (black, 0) exactly when each of its three channels
/// reaches the threshold; one channel below it makes it background (white,
/// 255). So brightening a pixel never turns text into background.
pub proof fn lemma_text_needs_every_channel(
    red: u8,
    green: u8,
    blue: u8,
    threshold: u8,
    red2: u8,
    green2: u8,
    blue2: u8,
)
    ensures
        mask_value(red, green, blue, threshold) == 0 || mask_value(red, green, blue, threshold)
            == 255,
        red < threshold ==> mask_value(red, green, blue, threshold) == 255,
        green < threshold ==> mask_value(red, green, blue, threshold) == 255,
        blue < threshold ==> mask_value(red, green, blue, threshold) == 255,
        red >= threshold && green >= threshold && blue >= threshold ==> mask_value(
            red,
            green,
            blue,
            threshold,
        ) == 0,
        mask_value(red, green, blue, threshold) == 0 && red <= red2 && green <= green2 && blue
            <= blue2 ==> mask_value(red2, green2, blue2, threshold) == 0,
{
}

} // verus!
