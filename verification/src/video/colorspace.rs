//! YUV (BT.601, studio range) to packed RGB.

use vstd::prelude::*;
use vstd::arithmetic::div_mod::lemma_fundamental_div_mod_converse;

use crate::video::crop::clamp_spec;
use crate::video::pixel::{pack_rgb, packed_value};

verus! {

/// Luma of black in studio range.
pub const LUMA_STUDIO_MIN_OFFSET: i32 = 16;

/// Chroma value of no colour.
pub const CHROMA_CENTER_OFFSET: i32 = 128;

/// The weighted sums (times 256, rounding offset included) behind the red,
/// green and blue of a YUV sample.
pub open spec fn red_sum(luma: int, u: int, v: int) -> int {
    298 * (luma - 16) + 409 * (v - 128) + 128
}

pub open spec fn green_sum(luma: int, u: int, v: int) -> int {
    298 * (luma - 16) - 100 * (u - 128) - 208 * (v - 128) + 128
}

pub open spec fn blue_sum(luma: int, u: int, v: int) -> int {
    298 * (luma - 16) + 516 * (u - 128) + 128
}

/// A channel from its weighted sum: divided by 256 (rounding down) and
/// held within 0..=255.
pub open spec fn channel_of(sum: int) -> int {
    clamp_spec(sum / 256, 0, 255)
}

/// The computation stays within `i32` (as it does for byte-sized inputs):
/// each product and partial sum of the conversion fits.
pub open spec fn yuv_fits_i32(luma: int, u: int, v: int) -> bool {
    let nl = luma - 16;
    let nu = u - 128;
    let nv = v - 128;
    let fits = |x: int| i32::MIN <= x <= i32::MAX;
    &&& fits(nl) && fits(nu) && fits(nv)
    &&& fits(298 * nl) && fits(409 * nv) && fits(100 * nu) && fits(208 * nv) && fits(516 * nu)
    &&& fits(298 * nl + 409 * nv) && fits(298 * nl + 409 * nv + 128)
    &&& fits(298 * nl - 100 * nu) && fits(298 * nl - 100 * nu - 208 * nv) && fits(
        298 * nl - 100 * nu - 208 * nv + 128,
    )
    &&& fits(298 * nl + 516 * nu) && fits(298 * nl + 516 * nu + 128)
}

/// Inputs of byte size never overflow.
pub proof fn lemma_byte_inputs_fit(luma: int, u: int, v: int)
    requires
        0 <= luma <= 255,
        0 <= u <= 255,
        0 <= v <= 255,
    ensures
        yuv_fits_i32(luma, u, v),
{
}

fn channel_exec(sum: i32) -> (c: u8)
    ensures
        c as int == channel_of(sum as int),
{
    let shifted = sum >> 8;
    assert(shifted == sum / 256) by (bit_vector)
        requires
            shifted == sum >> 8,
    ;
    if shifted < 0 {
        0
    } else if shifted > 255 {
        255
    } else {
        shifted as u8
    }
}

/// The packed RGB pixel of a YUV sample (BT.601 integer conversion):
/// each channel is its weighted sum divided by 256 and held within 0..=255.
pub fn yuv_to_packed_rgb(luma: i32, chroma_u: i32, chroma_v: i32) -> (packed: u32)
    requires
        yuv_fits_i32(luma as int, chroma_u as int, chroma_v as int),
    ensures
        packed as int == packed_value(
            channel_of(red_sum(luma as int, chroma_u as int, chroma_v as int)) as u8,
            channel_of(green_sum(luma as int, chroma_u as int, chroma_v as int)) as u8,
            channel_of(blue_sum(luma as int, chroma_u as int, chroma_v as int)) as u8,
        ),
{
    let normalized_luma = luma - LUMA_STUDIO_MIN_OFFSET;
    let normalized_u = chroma_u - CHROMA_CENTER_OFFSET;
    let normalized_v = chroma_v - CHROMA_CENTER_OFFSET;

    let red = channel_exec(298 * normalized_luma + 409 * normalized_v + 128);
    let green = channel_exec(298 * normalized_luma - 100 * normalized_u - 208 * normalized_v + 128);
    let blue = channel_exec(298 * normalized_luma + 516 * normalized_u + 128);

    pack_rgb(red, green, blue)
}

/// The number of whole pixel pairs a row decode writes: as many as both
/// the output (two pixels a pair) and the input (four bytes a pair) hold.
pub open spec fn pixel_pairs(input_len: nat, output_len: nat) -> int {
    if output_len / 2 <= input_len / 4 {
        (output_len / 2) as int
    } else {
        (input_len / 4) as int
    }
}

/// The packed value of output pixel `i` of a YUYV row: pixel pair `i / 2`
/// is read from bytes Y0 U Y1 V at `4 * (i / 2)`; the first pixel of the
/// pair takes Y0, the second Y1, both take U and V.
pub open spec fn yuyv_pixel(input: Seq<u8>, i: int) -> int {
    let q = 4 * (i / 2);
    let luma = input[q + 2 * (i % 2)] as int;
    let u = input[q + 1] as int;
    let v = input[q + 3] as int;
    packed_value(
        channel_of(red_sum(luma, u, v)) as u8,
        channel_of(green_sum(luma, u, v)) as u8,
        channel_of(blue_sum(luma, u, v)) as u8,
    )
}

/// Decodes one row of YUYV bytes into packed RGB pixels. Output pixels
/// past the last whole pair (of either side) are left as they were.
pub fn decode_yuyv_row(input_row: &[u8], output_row: &mut [u32])
    ensures
        final(output_row)@.len() == old(output_row)@.len(),
        forall|i: int|
            0 <= i < old(output_row)@.len() ==> #[trigger] final(output_row)@[i] as int == if i < 2
                * pixel_pairs(input_row@.len(), old(output_row)@.len()) {
                yuyv_pixel(input_row@, i)
            } else {
                old(output_row)@[i] as int
            },
{
    let ghost old_out = output_row@;
    let in_len = input_row.len();
    let out_len = output_row.len();
    let in_pairs = in_len / 4;
    let out_pairs = out_len / 2;
    let pairs = if out_pairs <= in_pairs {
        out_pairs
    } else {
        in_pairs
    };
    let mut k: usize = 0;
    while k < pairs
        invariant
            pairs == pixel_pairs(input_row@.len(), old_out.len()),
            in_len == input_row@.len(),
            out_len == old_out.len(),
            2 * pairs <= old_out.len(),
            4 * pairs <= input_row@.len(),
            output_row@.len() == old_out.len(),
            k <= pairs,
            forall|i: int|
                0 <= i < old_out.len() ==> #[trigger] output_row@[i] as int == if i < 2 * k {
                    yuyv_pixel(input_row@, i)
                } else {
                    old_out[i] as int
                },
        decreases pairs - k,
    {
        let luma_0 = input_row[4 * k] as i32;
        let chroma_u = input_row[4 * k + 1] as i32;
        let luma_1 = input_row[4 * k + 2] as i32;
        let chroma_v = input_row[4 * k + 3] as i32;
        proof {
            lemma_byte_inputs_fit(luma_0 as int, chroma_u as int, chroma_v as int);
            lemma_byte_inputs_fit(luma_1 as int, chroma_u as int, chroma_v as int);
            lemma_fundamental_div_mod_converse(2 * k, 2, k as int, 0);
            lemma_fundamental_div_mod_converse(2 * k + 1, 2, k as int, 1);
        }
        output_row[2 * k] = yuv_to_packed_rgb(luma_0, chroma_u, chroma_v);
        output_row[2 * k + 1] = yuv_to_packed_rgb(luma_1, chroma_u, chroma_v);
        k += 1;
    }
}


/// How the chroma values move the colour: red follows V alone, blue
/// follows U alone (both rising with them), green falls as either rises,
/// and all three rise with luma. With neutral chroma (U = V = 128) the
/// three sums agree, so the pixel is grey: black at luma 16, white from
/// luma 235.
pub proof fn lemma_colour_directions(luma: int, u: int, v: int, luma2: int, u2: int, v2: int)
    ensures
        red_sum(luma, u, v) == red_sum(luma, u2, v),
        blue_sum(luma, u, v) == blue_sum(luma, u, v2),
        v <= v2 ==> red_sum(luma, u, v) <= red_sum(luma, u, v2),
        u <= u2 ==> blue_sum(luma, u, v) <= blue_sum(luma, u2, v),
        u <= u2 ==> green_sum(luma, u2, v) <= green_sum(luma, u, v),
        v <= v2 ==> green_sum(luma, u, v2) <= green_sum(luma, u, v),
        luma <= luma2 ==> red_sum(luma, u, v) <= red_sum(luma2, u, v) && green_sum(luma, u, v)
            <= green_sum(luma2, u, v) && blue_sum(luma, u, v) <= blue_sum(luma2, u, v),
        red_sum(luma, 128, 128) == green_sum(luma, 128, 128),
        green_sum(luma, 128, 128) == blue_sum(luma, 128, 128),
        channel_of(red_sum(16, 128, 128)) == 0,
        luma >= 235 ==> channel_of(red_sum(luma, 128, 128)) == 255,
{
    if luma >= 235 {
        assert(298 * (luma - 16) + 128 >= 65390);
        assert((298 * (luma - 16) + 128) / 256 >= 255) by (nonlinear_arith)
            requires
                298 * (luma - 16) + 128 >= 65390,
        ;
    }
}

/// In byte positions: the two pixels of a YUYV pair k share the chroma
/// bytes U at 4k + 1 and V at 4k + 3; the first pixel takes its luma from
/// byte 4k and the second from byte 4k + 2.
pub proof fn lemma_yuyv_pair_bytes(input: Seq<u8>, k: int)
    requires
        0 <= k,
    ensures
        ({
            let u = input[4 * k + 1] as int;
            let v = input[4 * k + 3] as int;
            let first = input[4 * k] as int;
            let second = input[4 * k + 2] as int;
            &&& yuyv_pixel(input, 2 * k) == packed_value(
                channel_of(red_sum(first, u, v)) as u8,
                channel_of(green_sum(first, u, v)) as u8,
                channel_of(blue_sum(first, u, v)) as u8,
            )
            &&& yuyv_pixel(input, 2 * k + 1) == packed_value(
                channel_of(red_sum(second, u, v)) as u8,
                channel_of(green_sum(second, u, v)) as u8,
                channel_of(blue_sum(second, u, v)) as u8,
            )
        }),
{
    lemma_fundamental_div_mod_converse(2 * k, 2, k, 0);
    lemma_fundamental_div_mod_converse(2 * k + 1, 2, k, 1);
}

} // verus!
