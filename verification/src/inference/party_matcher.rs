//! Party icon positions, and the pixel work around icon matching: cutting a
//! crop out of a frame, finding the opaque part of an icon, and reusing
//! cached icon embeddings.

use vstd::prelude::*;
use vstd::string::StringExecFns;
use vstd::arithmetic::div_mod::lemma_fundamental_div_mod_converse;

use crate::video::buffer::{index_of, lemma_index_monotone};
use crate::video::crop::{PixelCropArea, RelativeCropArea};
use crate::video::pixel::{blue_of, green_of, red_of, unpack_rgb};

verus! {

/// Where the six icons of each party are on the selection screen.
#[derive(Debug, Clone, Copy)]
pub struct PartySlots {
    pub ally: [RelativeCropArea; 6],
    pub opponent: [RelativeCropArea; 6],
}

/// The default column of six icon slots at `x` (in ten-thousandths): each
/// slot is 775 wide and 1008 high, their tops at 1450, 2625, 3775, 4950,
/// 6125 and 7300.
pub open spec fn default_slot_column(x: u32) -> Seq<RelativeCropArea> {
    seq![
        RelativeCropArea { x, y: 1450, width: 775, height: 1008 },
        RelativeCropArea { x, y: 2625, width: 775, height: 1008 },
        RelativeCropArea { x, y: 3775, width: 775, height: 1008 },
        RelativeCropArea { x, y: 4950, width: 775, height: 1008 },
        RelativeCropArea { x, y: 6125, width: 775, height: 1008 },
        RelativeCropArea { x, y: 7300, width: 775, height: 1008 },
    ]
}

fn slot_column(x: u32) -> (slots: [RelativeCropArea; 6])
    ensures
        slots@ == default_slot_column(x),
{
    let slots = [
        RelativeCropArea { x, y: 1450, width: 775, height: 1008 },
        RelativeCropArea { x, y: 2625, width: 775, height: 1008 },
        RelativeCropArea { x, y: 3775, width: 775, height: 1008 },
        RelativeCropArea { x, y: 4950, width: 775, height: 1008 },
        RelativeCropArea { x, y: 6125, width: 775, height: 1008 },
        RelativeCropArea { x, y: 7300, width: 775, height: 1008 },
    ];
    assert(slots@ =~= default_slot_column(x));
    slots
}

impl Default for PartySlots {
    /// The ally party in the column at 26.13% of the width, the opponent
    /// party at 84.00%.
    fn default() -> (slots: Self)
        ensures
            slots.ally@ == default_slot_column(2613),
            slots.opponent@ == default_slot_column(8400),
    {
        PartySlots { ally: slot_column(2613), opponent: slot_column(8400) }
    }
}

impl PartySlots {
    /// The twelve icon slots: ally 1 to 6, then opponent 1 to 6.
    pub fn all_crops(&self) -> (crops: [RelativeCropArea; 12])
        ensures
            crops@ == self.ally@ + self.opponent@,
    {
        let crops = [
            self.ally[0],
            self.ally[1],
            self.ally[2],
            self.ally[3],
            self.ally[4],
            self.ally[5],
            self.opponent[0],
            self.opponent[1],
            self.opponent[2],
            self.opponent[3],
            self.opponent[4],
            self.opponent[5],
        ];
        assert(crops@ =~= self.ally@ + self.opponent@);
        crops
    }
}

/// The alpha value from which a pixel of an icon counts as opaque.
pub const ALPHA_OPAQUE_THRESHOLD: u8 = 128;

/// Pixel (x, y) of a `width`-wide RGBA image (four bytes per pixel, row
/// by row) is opaque.
pub open spec fn opaque_at(rgba: Seq<u8>, width: int, x: int, y: int) -> bool {
    rgba[4 * (y * width + x) + 3] >= ALPHA_OPAQUE_THRESHOLD
}

/// A rectangle of an image in pixels: corner (x, y), `width` x `height`.
#[derive(Debug, Clone, Copy, PartialEq, Eq, Structural)]
pub struct PixelBox {
    pub x: u32,
    pub y: u32,
    pub width: u32,
    pub height: u32,
}

/// Every opaque pixel of the image lies in `b`.
pub open spec fn box_holds_opaque(rgba: Seq<u8>, width: u32, height: u32, b: PixelBox) -> bool {
    forall|px: int, py: int|
        0 <= px < width && 0 <= py < height && #[trigger] opaque_at(rgba, width as int, px, py)
            ==> b.x <= px < b.x + b.width && b.y <= py < b.y + b.height
}

/// Each edge of `b` passes through an opaque pixel.
pub open spec fn box_is_tight(rgba: Seq<u8>, width: u32, height: u32, b: PixelBox) -> bool {
    &&& exists|px: int, py: int|
        0 <= px < width && 0 <= py < height && #[trigger] opaque_at(rgba, width as int, px, py)
            && px == b.x
    &&& exists|px: int, py: int|
        0 <= px < width && 0 <= py < height && #[trigger] opaque_at(rgba, width as int, px, py)
            && py == b.y
    &&& exists|px: int, py: int|
        0 <= px < width && 0 <= py < height && #[trigger] opaque_at(rgba, width as int, px, py)
            && px == b.x + b.width - 1
    &&& exists|px: int, py: int|
        0 <= px < width && 0 <= py < height && #[trigger] opaque_at(rgba, width as int, px, py)
            && py == b.y + b.height - 1
}

/// The image has an opaque pixel.
pub open spec fn has_opaque(rgba: Seq<u8>, width: u32, height: u32) -> bool {
    exists|px: int, py: int|
        0 <= px < width && 0 <= py < height && #[trigger] opaque_at(rgba, width as int, px, py)
}

proof fn lemma_rgba_index(width: u32, height: u32, x: u32, y: u32)
    requires
        x < width,
        y < height,
    ensures
        4 * (y * width + x) + 3 < 4 * width * height,
        0 <= y * width + x,
{
    assert(y * width + x < width * height) by (nonlinear_arith)
        requires
            x < width,
            y < height,
    ;
    assert(4 * (width * height) == 4 * width * height) by (nonlinear_arith);
}

/// The smallest rectangle holding every opaque pixel (alpha at least 128)
/// of a `width` x `height` RGBA image, or `None` when no pixel is opaque.
/// Icons are cut down to it so that the margin around an icon does not
/// depend on the file.
pub fn opaque_bounding_box(rgba: &[u8], width: u32, height: u32) -> (b: Option<PixelBox>)
    requires
        rgba@.len() == 4 * width * height,
    ensures
        b is None <==> !has_opaque(rgba@, width, height),
        b matches Some(bx) ==> box_holds_opaque(rgba@, width, height, bx) && box_is_tight(
            rgba@,
            width,
            height,
            bx,
        ),
{
    let ghost w = width as int;
    let len = rgba.len();
    let mut min_x = width;
    let mut min_y = height;
    let mut max_x: u32 = 0;
    let mut max_y: u32 = 0;
    let mut found = false;
    let ghost mut wit_min_x: (int, int) = (0, 0);
    let ghost mut wit_min_y: (int, int) = (0, 0);
    let ghost mut wit_max_x: (int, int) = (0, 0);
    let ghost mut wit_max_y: (int, int) = (0, 0);
    let mut y: u32 = 0;
    while y < height
        invariant
            rgba@.len() == 4 * width * height,
            len == rgba@.len(),
            w == width,
            y <= height,
            forall|px: int, py: int|
                0 <= px < width && 0 <= py < y && #[trigger] opaque_at(rgba@, w, px, py) ==> found
                    && min_x <= px <= max_x && min_y <= py <= max_y,
            found ==> {
                &&& 0 <= wit_min_x.0 < width && 0 <= wit_min_x.1 < height && opaque_at(rgba@, w, wit_min_x.0, wit_min_x.1) && wit_min_x.0 == min_x
                &&& 0 <= wit_min_y.0 < width && 0 <= wit_min_y.1 < height && opaque_at(rgba@, w, wit_min_y.0, wit_min_y.1) && wit_min_y.1 == min_y
                &&& 0 <= wit_max_x.0 < width && 0 <= wit_max_x.1 < height && opaque_at(rgba@, w, wit_max_x.0, wit_max_x.1) && wit_max_x.0 == max_x
                &&& 0 <= wit_max_y.0 < width && 0 <= wit_max_y.1 < height && opaque_at(rgba@, w, wit_max_y.0, wit_max_y.1) && wit_max_y.1 == max_y
            },
        decreases height - y,
    {
        let mut x: u32 = 0;
        while x < width
            invariant
                rgba@.len() == 4 * width * height,
                len == rgba@.len(),
                w == width,
                y < height,
                x <= width,
                forall|px: int, py: int|
                    0 <= px < width && 0 <= py < height && (py < y || (py == y && px < x))
                        && #[trigger] opaque_at(rgba@, w, px, py) ==> found && min_x <= px <= max_x
                        && min_y <= py <= max_y,
                found ==> {
                    &&& 0 <= wit_min_x.0 < width && 0 <= wit_min_x.1 < height && opaque_at(rgba@, w, wit_min_x.0, wit_min_x.1) && wit_min_x.0 == min_x
                    &&& 0 <= wit_min_y.0 < width && 0 <= wit_min_y.1 < height && opaque_at(rgba@, w, wit_min_y.0, wit_min_y.1) && wit_min_y.1 == min_y
                    &&& 0 <= wit_max_x.0 < width && 0 <= wit_max_x.1 < height && opaque_at(rgba@, w, wit_max_x.0, wit_max_x.1) && wit_max_x.0 == max_x
                    &&& 0 <= wit_max_y.0 < width && 0 <= wit_max_y.1 < height && opaque_at(rgba@, w, wit_max_y.0, wit_max_y.1) && wit_max_y.1 == max_y
                },
            decreases width - x,
        {
            proof {
                lemma_rgba_index(width, height, x, y);
                assert((y as usize) * (width as usize) <= (y as usize) * (width as usize) + (x as usize));
            }
            let idx = 4 * ((y as usize) * (width as usize) + (x as usize)) + 3;
            if rgba[idx] >= ALPHA_OPAQUE_THRESHOLD {
                assert(opaque_at(rgba@, w, x as int, y as int));
                if !found || x < min_x {
                    min_x = x;
                    proof { wit_min_x = (x as int, y as int); }
                }
                if !found || y < min_y {
                    min_y = y;
                    proof { wit_min_y = (x as int, y as int); }
                }
                if !found || x > max_x {
                    max_x = x;
                    proof { wit_max_x = (x as int, y as int); }
                }
                if !found || y > max_y {
                    max_y = y;
                    proof { wit_max_y = (x as int, y as int); }
                }
                found = true;
            }
            x += 1;
        }
        y += 1;
    }
    if !found {
        return None;
    }
    let b = PixelBox { x: min_x, y: min_y, width: max_x - min_x + 1, height: max_y - min_y + 1 };
    assert(opaque_at(rgba@, w, wit_min_x.0, wit_min_x.1));
    assert(opaque_at(rgba@, w, wit_min_y.0, wit_min_y.1));
    assert(opaque_at(rgba@, w, wit_max_x.0, wit_max_x.1));
    assert(opaque_at(rgba@, w, wit_max_y.0, wit_max_y.1));
    Some(b)
}

/// `n - 1`, or 0 when `n` is 0.
pub open spec fn last_index(n: usize) -> int {
    if n == 0 {
        0
    } else {
        n - 1
    }
}

/// The frame index that pixel (x, y) of a crop is read from: the crop's
/// pixel, held to the frame's last row and last column.
pub open spec fn crop_source_index(
    frame_width: usize,
    frame_height: usize,
    crop: PixelCropArea,
    x: int,
    y: int,
) -> int {
    let sy = if crop.y + y < last_index(frame_height) {
        crop.y + y
    } else {
        last_index(frame_height)
    };
    let sx = if crop.x + x < last_index(frame_width) {
        crop.x + x
    } else {
        last_index(frame_width)
    };
    sy * frame_width + sx
}

/// Byte `j` of the RGB bytes of a crop (three bytes, red, green, blue, per
/// pixel, row by row).
pub open spec fn crop_rgb_byte(
    frame: Seq<u32>,
    frame_width: usize,
    frame_height: usize,
    crop: PixelCropArea,
    j: int,
) -> u8 {
    let k = j / 3;
    let x = k % (crop.width as int);
    let y = k / (crop.width as int);
    let p = frame[crop_source_index(frame_width, frame_height, crop, x, y)];
    if j % 3 == 0 {
        red_of(p)
    } else if j % 3 == 1 {
        green_of(p)
    } else {
        blue_of(p)
    }
}

proof fn lemma_source_index_bounded(
    frame_width: usize,
    frame_height: usize,
    crop: PixelCropArea,
    x: int,
    y: int,
)
    requires
        0 <= x < crop.width,
        0 <= y < crop.height,
    ensures
        0 <= crop_source_index(frame_width, frame_height, crop, x, y) <= crop_source_index(
            frame_width,
            frame_height,
            crop,
            crop.width - 1,
            crop.height - 1,
        ),
{
    let sy = if crop.y + y < last_index(frame_height) {
        crop.y + y
    } else {
        last_index(frame_height)
    };
    let sx = if crop.x + x < last_index(frame_width) {
        crop.x + x
    } else {
        last_index(frame_width)
    };
    let my = if crop.y + crop.height - 1 < last_index(frame_height) {
        crop.y + crop.height - 1
    } else {
        last_index(frame_height)
    };
    let mx = if crop.x + crop.width - 1 < last_index(frame_width) {
        crop.x + crop.width - 1
    } else {
        last_index(frame_width)
    };
    if frame_width == 0 {
        assert(sy * frame_width == 0 && my * frame_width == 0) by (nonlinear_arith)
            requires
                frame_width == 0,
        ;
    } else {
        lemma_index_monotone(frame_width as nat, sx, sy, mx, my);
        if sy < my {
            lemma_index_monotone(frame_width as nat, sx, sy, mx, my);
        }
        assert(0 <= sy * frame_width) by (nonlinear_arith)
            requires
                0 <= sy,
                0 <= frame_width,
        ;
    }
}

/// The pixels of `crop` in a packed `frame_width` x `frame_height` frame,
/// as RGB bytes row by row; a pixel past the frame's last row or column
/// repeats that row or column. An empty crop gives `None`.
pub fn extract_crop_rgb(
    frame: &[u32],
    frame_width: usize,
    frame_height: usize,
    crop: PixelCropArea,
) -> (rgb: Option<Vec<u8>>)
    requires
        crop.x + crop.width <= usize::MAX,
        crop.y + crop.height <= usize::MAX,
        crop.width > 0 && crop.height > 0 ==> crop_source_index(
            frame_width,
            frame_height,
            crop,
            crop.width - 1,
            crop.height - 1,
        ) < frame@.len(),
    ensures
        rgb is None <==> (crop.width == 0 || crop.height == 0),
        rgb matches Some(bytes) ==> bytes@.len() == 3 * crop.width * crop.height && forall|j: int|
            0 <= j < bytes@.len() ==> #[trigger] bytes@[j] == crop_rgb_byte(
                frame@,
                frame_width,
                frame_height,
                crop,
                j,
            ),
{
    if crop.width == 0 || crop.height == 0 {
        return None;
    }
    let last_row = frame_height.saturating_sub(1);
    let last_col = frame_width.saturating_sub(1);
    let flen = frame.len();
    let mut bytes: Vec<u8> = Vec::new();
    let mut y: usize = 0;
    while y < crop.height
        invariant
            crop.width > 0,
            crop.x + crop.width <= usize::MAX,
            crop.y + crop.height <= usize::MAX,
            crop_source_index(frame_width, frame_height, crop, crop.width - 1, crop.height - 1)
                < frame@.len(),
            last_row == last_index(frame_height),
            last_col == last_index(frame_width),
            flen == frame@.len(),
            y <= crop.height,
            bytes@.len() == 3 * (y * crop.width),
            forall|j: int|
                0 <= j < bytes@.len() ==> #[trigger] bytes@[j] == crop_rgb_byte(
                    frame@,
                    frame_width,
                    frame_height,
                    crop,
                    j,
                ),
        decreases crop.height - y,
    {
        let mut x: usize = 0;
        while x < crop.width
            invariant
                crop.width > 0,
                crop.x + crop.width <= usize::MAX,
                crop.y + crop.height <= usize::MAX,
                crop_source_index(frame_width, frame_height, crop, crop.width - 1, crop.height - 1)
                    < frame@.len(),
                last_row == last_index(frame_height),
                last_col == last_index(frame_width),
                flen == frame@.len(),
                y < crop.height,
                x <= crop.width,
                bytes@.len() == 3 * (y * crop.width + x),
                forall|j: int|
                    0 <= j < bytes@.len() ==> #[trigger] bytes@[j] == crop_rgb_byte(
                        frame@,
                        frame_width,
                        frame_height,
                        crop,
                        j,
                    ),
            decreases crop.width - x,
        {
            let src_y = if crop.y + y < last_row {
                crop.y + y
            } else {
                last_row
            };
            let src_x = if crop.x + x < last_col {
                crop.x + x
            } else {
                last_col
            };
            proof {
                lemma_source_index_bounded(frame_width, frame_height, crop, x as int, y as int);
                assert(src_y * frame_width + src_x == crop_source_index(
                    frame_width,
                    frame_height,
                    crop,
                    x as int,
                    y as int,
                ));
                assert(src_y * frame_width <= src_y * frame_width + src_x);
            }
            let packed = frame[src_y * frame_width + src_x];
            let (r, g, b) = unpack_rgb(packed);
            let ghost k = y * crop.width + x;
            proof {
                lemma_fundamental_div_mod_converse(k, crop.width as int, y as int, x as int);
                lemma_fundamental_div_mod_converse(3 * k, 3, k, 0);
                lemma_fundamental_div_mod_converse(3 * k + 1, 3, k, 1);
                lemma_fundamental_div_mod_converse(3 * k + 2, 3, k, 2);
                assert(0 <= y * crop.width) by (nonlinear_arith)
                    requires
                        0 <= y,
                        0 <= crop.width,
                ;
            }
            bytes.push(r);
            bytes.push(g);
            bytes.push(b);
            x += 1;
        }
        assert(y * crop.width + crop.width == (y + 1) * crop.width) by (nonlinear_arith);
        y += 1;
    }
    assert(3 * (crop.height * crop.width) == 3 * crop.width * crop.height) by (nonlinear_arith);
    Some(bytes)
}

/// `i` is the last cached entry recorded for `file_name`.
pub open spec fn last_cached_for(cached: Seq<(String, u128)>, file_name: Seq<char>, i: int) -> bool {
    &&& 0 <= i < cached.len()
    &&& cached[i].0@ == file_name
    &&& forall|j: int| i < j < cached.len() ==> cached[j].0@ != file_name
}

/// The cached embedding to reuse for an icon file: the last cache entry
/// recorded under the file's name, if it was made from the file as it is
/// now (same modification time, in nanoseconds); `None` when the icon has
/// to be embedded again.
pub fn reusable_cache_entry(cached: &[(String, u128)], file_name: &str, mtime_nanos: u128) -> (r:
    Option<usize>)
    ensures
        match r {
            Some(i) => last_cached_for(cached@, file_name@, i as int) && cached@[i as int].1
                == mtime_nanos,
            None => forall|i: int| #[trigger]
                last_cached_for(cached@, file_name@, i) ==> cached@[i].1 != mtime_nanos,
        },
{
    let name = String::from_str(file_name);
    let mut i = cached.len();
    while i > 0
        invariant
            i <= cached@.len(),
            name@ == file_name@,
            forall|j: int| i <= j < cached@.len() ==> cached@[j].0@ != file_name@,
        decreases i,
    {
        i -= 1;
        if cached[i].0 == name {
            assert(last_cached_for(cached@, file_name@, i as int));
            if cached[i].1 == mtime_nanos {
                return Some(i);
            }
            return None;
        }
    }
    None
}

/// In pixel coordinates: for a crop inside the frame, pixel (x, y) of the
/// crop is the frame pixel (crop.x + x, crop.y + y), and its three bytes
/// are that pixel's red, green and blue, in that order, at byte
/// `3 * (y * crop.width + x)`.
pub proof fn lemma_crop_bytes_by_coordinates(
    frame: Seq<u32>,
    frame_width: usize,
    frame_height: usize,
    crop: PixelCropArea,
    x: int,
    y: int,
)
    requires
        0 <= x < crop.width,
        0 <= y < crop.height,
        crop.x + crop.width <= frame_width,
        crop.y + crop.height <= frame_height,
    ensures
        ({
            let p = frame[(crop.y + y) * frame_width + crop.x + x];
            let j = 3 * (y * crop.width + x);
            &&& crop_rgb_byte(frame, frame_width, frame_height, crop, j) == red_of(p)
            &&& crop_rgb_byte(frame, frame_width, frame_height, crop, j + 1) == green_of(p)
            &&& crop_rgb_byte(frame, frame_width, frame_height, crop, j + 2) == blue_of(p)
        }),
{
    let k = y * crop.width + x;
    assert(0 <= y * crop.width) by (nonlinear_arith)
        requires
            0 <= y,
            0 <= crop.width,
    ;
    lemma_fundamental_div_mod_converse(k, crop.width as int, y, x);
    lemma_fundamental_div_mod_converse(3 * k, 3, k, 0);
    lemma_fundamental_div_mod_converse(3 * k + 1, 3, k, 1);
    lemma_fundamental_div_mod_converse(3 * k + 2, 3, k, 2);
}

} // verus!
