//! Drawing helpers of the capture window's panels: clearing a rectangle,
//! the ▶ button next to the phase text, and the red crop-area outline.

pub mod crop_input;
pub mod phase_button;
pub mod usage_button;

use vstd::prelude::*;

use crate::video::buffer::{
    column_of, index_of, lemma_index_coords, lemma_index_unique, rect_covers, rect_within, row_of,
    PixelBuffer,
};
use crate::video::crop::PixelCropArea;

verus! {

/// The colour of the ▶ button.
pub const PHASE_BUTTON_COLOR: u32 = 0x00C8_00FF;

/// The ▶ button's width.
pub const PHASE_BUTTON_WIDTH: usize = 12;

/// The ▶ button's height.
pub const PHASE_BUTTON_HEIGHT: usize = 16;

/// The colour of the crop-area outline.
pub const RED_COLOR: u32 = 0x00FF_0000;

/// The crop-area outline's thickness in pixels.
pub const RED_BOX_THICKNESS: usize = 3;

/// Fills the `w` x `h` rectangle at (x, y) of `buffer` with `color`,
/// clipped at the buffer's edges; every other pixel is left as it was.
pub fn clear_rect(buffer: &mut PixelBuffer, x: usize, y: usize, w: usize, h: usize, color: u32)
    requires
        rect_within(
            old(buffer).pixels@.len(),
            old(buffer).width as nat,
            old(buffer).height as nat,
            x as int,
            y as int,
            w as int,
            h as int,
        ),
    ensures
        final(buffer).width == old(buffer).width,
        final(buffer).height == old(buffer).height,
        final(buffer).pixels@.len() == old(buffer).pixels@.len(),
        forall|i: int|
            0 <= i < old(buffer).pixels@.len() ==> #[trigger] final(buffer).pixels@[i] == if rect_covers(
                old(buffer).width as nat,
                old(buffer).height as nat,
                x as int,
                y as int,
                w as int,
                h as int,
                i,
            ) {
                color
            } else {
                old(buffer).pixels@[i]
            },
{
    buffer.clear_rect(x, y, w, h, color);
}

/// How many pixels wide row `dy` of a `width` x `height` right-pointing
/// triangle is: `width` in the middle row, narrowing evenly to nothing at
/// the top (`width * (1 - |dy - height/2| / (height/2))`, rounded down).
pub open spec fn triangle_span(width: int, height: int, dy: int) -> int {
    let center = height / 2;
    let dist = if dy >= center {
        dy - center
    } else {
        center - dy
    };
    width * (center - dist) / center
}

/// Whether index `i` of the buffer lies in the ▶ triangle whose bounding
/// box has its top-left corner at (x, y).
pub open spec fn triangle_covers(
    buf_width: nat,
    buf_height: nat,
    x: int,
    y: int,
    width: int,
    height: int,
    i: int,
) -> bool {
    &&& rect_covers(buf_width, buf_height, x, y, width, height, i)
    &&& column_of(buf_width, i) - x < triangle_span(width, height, row_of(buf_width, i) - y)
}

/// The width of row `dy` of the ▶ triangle.
fn triangle_row_span(width: usize, height: usize, dy: usize) -> (span: usize)
    requires
        width == PHASE_BUTTON_WIDTH,
        height == PHASE_BUTTON_HEIGHT,
        dy < height,
    ensures
        span == triangle_span(width as int, height as int, dy as int),
        span <= width,
{
    let center = height / 2;
    let dist = if dy >= center {
        dy - center
    } else {
        center - dy
    };
    assert(dist <= center && center == 8 && width == 12);
    assert(width * (center - dist) <= width * center) by (nonlinear_arith)
        requires
            dist <= center,
    ;
    assert(dist <= center && center == 8 && width == 12);
    assert(width * (center - dist) <= width * center) by (nonlinear_arith)
        requires
            dist <= center,
    ;
    width * (center - dist) / center
}

/// Draws the right-pointing ▶ triangle (`width` x `height`) with its
/// bounding box's top-left corner at (x, y) in `color`, skipping pixels
/// outside the buffer; every other pixel is left as it was.
pub fn draw_triangle(
    buffer: &mut PixelBuffer,
    x: usize,
    y: usize,
    width: usize,
    height: usize,
    color: u32,
)
    requires
        width == PHASE_BUTTON_WIDTH,
        height == PHASE_BUTTON_HEIGHT,
        x + width <= usize::MAX,
        y + height <= usize::MAX,
        rect_within(
            old(buffer).pixels@.len(),
            old(buffer).width as nat,
            old(buffer).height as nat,
            x as int,
            y as int,
            width as int,
            height as int,
        ),
    ensures
        final(buffer).width == old(buffer).width,
        final(buffer).height == old(buffer).height,
        final(buffer).pixels@.len() == old(buffer).pixels@.len(),
        forall|i: int|
            0 <= i < old(buffer).pixels@.len() ==> #[trigger] final(buffer).pixels@[i] == if triangle_covers(
                old(buffer).width as nat,
                old(buffer).height as nat,
                x as int,
                y as int,
                width as int,
                height as int,
                i,
            ) {
                color
            } else {
                old(buffer).pixels@[i]
            },
{
    let buf_w = buffer.width;
    let buf_h = buffer.height;
    let len = buffer.pixels.len();
    let ghost old_pixels = buffer.pixels@;
    let mut dy: usize = 0;
    while dy < height
        invariant
            buffer.width == buf_w,
            buffer.height == buf_h,
            buffer.pixels@.len() == old_pixels.len(),
            len == old_pixels.len(),
            dy <= height,
            width == PHASE_BUTTON_WIDTH,
            height == PHASE_BUTTON_HEIGHT,
            x + width <= usize::MAX,
            y + height <= usize::MAX,
            rect_within(old_pixels.len(), buf_w as nat, buf_h as nat, x as int, y as int, width as int, height as int),
            forall|i: int|
                0 <= i < old_pixels.len() ==> #[trigger] buffer.pixels@[i] == if triangle_covers(
                    buf_w as nat,
                    buf_h as nat,
                    x as int,
                    y as int,
                    width as int,
                    height as int,
                    i,
                ) && row_of(buf_w as nat, i) < y + dy {
                    color
                } else {
                    old_pixels[i]
                },
        decreases height - dy,
    {
        let span = triangle_row_span(width, height, dy);
        let mut dx: usize = 0;
        while dx < span
            invariant
                buffer.width == buf_w,
                buffer.height == buf_h,
                buffer.pixels@.len() == old_pixels.len(),
                len == old_pixels.len(),
                dy < height,
                dx <= span,
                span <= width,
                span == triangle_span(width as int, height as int, dy as int),
                width == PHASE_BUTTON_WIDTH,
                height == PHASE_BUTTON_HEIGHT,
                x + width <= usize::MAX,
                y + height <= usize::MAX,
                rect_within(old_pixels.len(), buf_w as nat, buf_h as nat, x as int, y as int, width as int, height as int),
                forall|i: int|
                    0 <= i < old_pixels.len() ==> #[trigger] buffer.pixels@[i] == if (triangle_covers(
                        buf_w as nat,
                        buf_h as nat,
                        x as int,
                        y as int,
                        width as int,
                        height as int,
                        i,
                    ) && row_of(buf_w as nat, i) < y + dy) || (rect_covers(
                        buf_w as nat,
                        buf_h as nat,
                        x as int,
                        (y + dy) as int,
                        dx as int,
                        1,
                        i,
                    )) {
                        color
                    } else {
                        old_pixels[i]
                    },
            decreases span - dx,
        {
            let px = x + dx;
            let py = y + dy;
            if px < buf_w && py < buf_h {
                proof {
                    lemma_index_coords(buf_w as nat, px as int, py as int);
                    let x_end = if x + width <= buf_w { x + width } else { buf_w as int };
                    let y_end = if y + height <= buf_h { y + height } else { buf_h as int };
                    crate::video::buffer::lemma_index_monotone(
                        buf_w as nat,
                        px as int,
                        py as int,
                        x_end - 1,
                        y_end - 1,
                    );
                    assert(py * buf_w <= py * buf_w + px);
                    assert forall|i: int|
                        0 <= i < len && row_of(buf_w as nat, i) == py && column_of(buf_w as nat, i)
                            == px implies i == index_of(buf_w as nat, px as int, py as int) by {
                        lemma_index_unique(buf_w as nat, i);
                    }
                }
                buffer.pixels[py * buf_w + px] = color;
            }
            dx += 1;
        }
        dy += 1;
    }
}

/// Draws the ▶ button (12 x 16, in the button colour) with its bounding
/// box's top-left corner at (x, y).
pub fn draw_phase_button(buffer: &mut PixelBuffer, x: usize, y: usize)
    requires
        x + PHASE_BUTTON_WIDTH <= usize::MAX,
        y + PHASE_BUTTON_HEIGHT <= usize::MAX,
        rect_within(
            old(buffer).pixels@.len(),
            old(buffer).width as nat,
            old(buffer).height as nat,
            x as int,
            y as int,
            PHASE_BUTTON_WIDTH as int,
            PHASE_BUTTON_HEIGHT as int,
        ),
    ensures
        final(buffer).width == old(buffer).width,
        final(buffer).height == old(buffer).height,
        final(buffer).pixels@.len() == old(buffer).pixels@.len(),
        forall|i: int|
            0 <= i < old(buffer).pixels@.len() ==> #[trigger] final(buffer).pixels@[i] == if triangle_covers(
                old(buffer).width as nat,
                old(buffer).height as nat,
                x as int,
                y as int,
                PHASE_BUTTON_WIDTH as int,
                PHASE_BUTTON_HEIGHT as int,
                i,
            ) {
                PHASE_BUTTON_COLOR
            } else {
                old(buffer).pixels@[i]
            },
{
    draw_triangle(buffer, x, y, PHASE_BUTTON_WIDTH, PHASE_BUTTON_HEIGHT, PHASE_BUTTON_COLOR);
}

/// `a - b`, or 0 when `b` is larger.
pub open spec fn sat_sub(a: int, b: int) -> int {
    if a >= b {
        a - b
    } else {
        0
    }
}

/// The smaller of two integers.
pub open spec fn min_of(a: int, b: int) -> int {
    if a <= b {
        a
    } else {
        b
    }
}

/// Whether index `i` is on line `t` (0 is outermost) of the outline of the
/// box from (x1, y1) to (x2, y2) (exclusive), in a `buf_width` x
/// `buf_height` buffer: the top and bottom rows across columns x1..x2 (up
/// to column `x_done`), and the left and right columns down rows y1..y2 (up
/// to row `y_done`). The bottom row and right column count from the box's
/// far edge, never below 0.
pub open spec fn outline_line_covers(
    buf_width: nat,
    buf_height: nat,
    x1: int,
    y1: int,
    x2: int,
    y2: int,
    t: int,
    x_done: int,
    y_done: int,
    i: int,
) -> bool {
    let col = column_of(buf_width, i);
    let row = row_of(buf_width, i);
    &&& buf_width > 0
    &&& 0 <= i
    &&& row < buf_height
    &&& {
        ||| x1 <= col < min_of(x2, x_done) && (row == y1 + t || row == sat_sub(y2, 1 + t))
        ||| y1 <= row < min_of(y2, y_done) && (col == x1 + t || col == sat_sub(x2, 1 + t))
    }
}

/// Whether index `i` is on one of the first `lines` lines (0 is
/// outermost) of the outline from (x1, y1) to (x2, y2).
pub open spec fn outline_covers(
    buf_width: nat,
    buf_height: nat,
    x1: int,
    y1: int,
    x2: int,
    y2: int,
    lines: int,
    i: int,
) -> bool {
    ||| lines > 0 && outline_line_covers(buf_width, buf_height, x1, y1, x2, y2, 0, x2, y2, i)
    ||| lines > 1 && outline_line_covers(buf_width, buf_height, x1, y1, x2, y2, 1, x2, y2, i)
    ||| lines > 2 && outline_line_covers(buf_width, buf_height, x1, y1, x2, y2, 2, x2, y2, i)
}

/// Whether index `i` is on the three-pixel outline that `draw_red_box`
/// draws: the crop area (shifted by the offset) with its right and bottom
/// edges held to the buffer.
pub open spec fn red_box_covers(
    buf_width: nat,
    buf_height: nat,
    offset_x: int,
    offset_y: int,
    crop: PixelCropArea,
    i: int,
) -> bool {
    outline_covers(
        buf_width,
        buf_height,
        offset_x + crop.x,
        offset_y + crop.y,
        min_of(offset_x + crop.x + crop.width, buf_width as int),
        min_of(offset_y + crop.y + crop.height, buf_height as int),
        RED_BOX_THICKNESS as int,
        i,
    )
}

/// Every outline pixel is inside the slice.
pub open spec fn red_box_within(
    len: nat,
    buf_width: nat,
    buf_height: nat,
    offset_x: int,
    offset_y: int,
    crop: PixelCropArea,
) -> bool {
    forall|i: int| #[trigger]
        red_box_covers(buf_width, buf_height, offset_x, offset_y, crop, i) ==> i < len
}

/// The pixel at (px, py) is the only index with that column and row.
proof fn lemma_pixel_at(width: nat, px: int, py: int, len: nat)
    requires
        0 <= px < width,
        0 <= py,
    ensures
        column_of(width, index_of(width, px, py)) == px,
        row_of(width, index_of(width, px, py)) == py,
        0 <= index_of(width, px, py),
        forall|i: int|
            0 <= i < len && column_of(width, i) == px && row_of(width, i) == py ==> i == index_of(
                width,
                px,
                py,
            ),
{
    lemma_index_coords(width, px, py);
    assert forall|i: int|
        0 <= i < len && column_of(width, i) == px && row_of(width, i) == py implies i == index_of(
            width,
            px,
            py,
        ) by {
        lemma_index_unique(width, i);
    }
}

/// Draws the crop area as a red outline three pixels thick, shifted by
/// (offset_x, offset_y) (where the video starts in the window buffer) and
/// held to the buffer's right and bottom edges; every other pixel is left
/// as it was.
pub fn draw_red_box(buffer: &mut PixelBuffer, offset_x: usize, offset_y: usize, crop: &PixelCropArea)
    requires
        offset_x + crop.x + crop.width + RED_BOX_THICKNESS <= usize::MAX,
        offset_y + crop.y + crop.height + RED_BOX_THICKNESS <= usize::MAX,
        red_box_within(
            old(buffer).pixels@.len(),
            old(buffer).width as nat,
            old(buffer).height as nat,
            offset_x as int,
            offset_y as int,
            *crop,
        ),
    ensures
        final(buffer).width == old(buffer).width,
        final(buffer).height == old(buffer).height,
        final(buffer).pixels@.len() == old(buffer).pixels@.len(),
        forall|i: int|
            0 <= i < old(buffer).pixels@.len() ==> #[trigger] final(buffer).pixels@[i] == if red_box_covers(
                old(buffer).width as nat,
                old(buffer).height as nat,
                offset_x as int,
                offset_y as int,
                *crop,
                i,
            ) {
                RED_COLOR
            } else {
                old(buffer).pixels@[i]
            },
{
    let buf_w = buffer.width;
    let buf_h = buffer.height;
    let len = buffer.pixels.len();
    let ghost old_pixels = buffer.pixels@;
    let ghost bw = buf_w as nat;
    let ghost bh = buf_h as nat;

    let x1 = offset_x + crop.x;
    let y1 = offset_y + crop.y;
    let x2 = if offset_x + crop.x + crop.width < buf_w {
        offset_x + crop.x + crop.width
    } else {
        buf_w
    };
    let y2 = if offset_y + crop.y + crop.height < buf_h {
        offset_y + crop.y + crop.height
    } else {
        buf_h
    };
    let ghost gx1 = x1 as int;
    let ghost gy1 = y1 as int;
    let ghost gx2 = x2 as int;
    let ghost gy2 = y2 as int;
    assert(forall|i: int|
        #[trigger] outline_covers(bw, bh, gx1, gy1, gx2, gy2, 3, i) ==> i < len) by {
        assert forall|i: int| #[trigger] outline_covers(bw, bh, gx1, gy1, gx2, gy2, 3, i) implies i < len by {
            assert(red_box_covers(bw, bh, offset_x as int, offset_y as int, *crop, i));
        }
    }

    let mut t: usize = 0;
    while t < RED_BOX_THICKNESS
        invariant
            buffer.width == buf_w,
            buffer.height == buf_h,
            buffer.pixels@.len() == old_pixels.len(),
            len == old_pixels.len(),
            bw == buf_w,
            bh == buf_h,
            gx1 == x1,
            gy1 == y1,
            gx2 == x2,
            gy2 == y2,
            x2 <= buf_w,
            y2 <= buf_h,
            x1 + RED_BOX_THICKNESS <= usize::MAX,
            y1 + RED_BOX_THICKNESS <= usize::MAX,
            forall|i: int| #[trigger] outline_covers(bw, bh, gx1, gy1, gx2, gy2, 3, i) ==> i < len,
            t <= RED_BOX_THICKNESS,
            forall|i: int|
                0 <= i < old_pixels.len() ==> #[trigger] buffer.pixels@[i] == if outline_covers(
                    bw,
                    bh,
                    gx1,
                    gy1,
                    gx2,
                    gy2,
                    t as int,
                    i,
                ) {
                    RED_COLOR
                } else {
                    old_pixels[i]
                },
        decreases RED_BOX_THICKNESS - t,
    {
        let mut x = x1;
        while x < x2
            invariant
                buffer.width == buf_w,
                buffer.height == buf_h,
                buffer.pixels@.len() == old_pixels.len(),
                len == old_pixels.len(),
                bw == buf_w,
                bh == buf_h,
                gx1 == x1,
                gy1 == y1,
                gx2 == x2,
                gy2 == y2,
                x2 <= buf_w,
                y2 <= buf_h,
                x1 + RED_BOX_THICKNESS <= usize::MAX,
                y1 + RED_BOX_THICKNESS <= usize::MAX,
                forall|i: int| #[trigger] outline_covers(bw, bh, gx1, gy1, gx2, gy2, 3, i) ==> i < len,
                t < RED_BOX_THICKNESS,
                x1 <= x,
                forall|i: int|
                    0 <= i < old_pixels.len() ==> #[trigger] buffer.pixels@[i] == if outline_covers(
                        bw,
                        bh,
                        gx1,
                        gy1,
                        gx2,
                        gy2,
                        t as int,
                        i,
                    ) || outline_line_covers(bw, bh, gx1, gy1, gx2, gy2, t as int, x as int, gy1, i) {
                        RED_COLOR
                    } else {
                        old_pixels[i]
                    },
            decreases x2 - x,
        {
            let top = y1 + t;
            let bottom = y2.saturating_sub(1 + t);
            let ghost before = buffer.pixels@;
            if top < buf_h {
                proof {
                    lemma_pixel_at(bw, x as int, top as int, len as nat);
                    let j = index_of(bw, x as int, top as int);
                    assert(outline_line_covers(bw, bh, gx1, gy1, gx2, gy2, t as int, gx2, gy2, j));
                    assert(outline_covers(bw, bh, gx1, gy1, gx2, gy2, 3, j));
                    assert(top * buf_w <= j);
                }
                buffer.pixels[top * buf_w + x] = RED_COLOR;
            }
            let ghost middle = buffer.pixels@;
            if bottom < buf_h {
                proof {
                    lemma_pixel_at(bw, x as int, bottom as int, len as nat);
                    let j = index_of(bw, x as int, bottom as int);
                    assert(outline_line_covers(bw, bh, gx1, gy1, gx2, gy2, t as int, gx2, gy2, j));
                    assert(outline_covers(bw, bh, gx1, gy1, gx2, gy2, 3, j));
                    assert(bottom * buf_w <= j);
                }
                buffer.pixels[bottom * buf_w + x] = RED_COLOR;
            }
            proof {
                lemma_pixel_at(bw, x as int, top as int, len as nat);
                lemma_pixel_at(bw, x as int, bottom as int, len as nat);
                assert forall|i: int| 0 <= i < old_pixels.len() implies #[trigger] buffer.pixels@[i]
                    == if outline_covers(bw, bh, gx1, gy1, gx2, gy2, t as int, i)
                    || outline_line_covers(bw, bh, gx1, gy1, gx2, gy2, t as int, x + 1, gy1, i) {
                    RED_COLOR
                } else {
                    old_pixels[i]
                } by {
                    assert(before[i] == buffer.pixels@[i] || column_of(bw, i) == x);
                }
            }
            x += 1;
        }
        let mut y = y1;
        while y < y2
            invariant
                buffer.width == buf_w,
                buffer.height == buf_h,
                buffer.pixels@.len() == old_pixels.len(),
                len == old_pixels.len(),
                bw == buf_w,
                bh == buf_h,
                gx1 == x1,
                gy1 == y1,
                gx2 == x2,
                gy2 == y2,
                x2 <= buf_w,
                y2 <= buf_h,
                x1 + RED_BOX_THICKNESS <= usize::MAX,
                y1 + RED_BOX_THICKNESS <= usize::MAX,
                forall|i: int| #[trigger] outline_covers(bw, bh, gx1, gy1, gx2, gy2, 3, i) ==> i < len,
                t < RED_BOX_THICKNESS,
                y1 <= y,
                forall|i: int|
                    0 <= i < old_pixels.len() ==> #[trigger] buffer.pixels@[i] == if outline_covers(
                        bw,
                        bh,
                        gx1,
                        gy1,
                        gx2,
                        gy2,
                        t as int,
                        i,
                    ) || outline_line_covers(bw, bh, gx1, gy1, gx2, gy2, t as int, gx2, y as int, i) {
                        RED_COLOR
                    } else {
                        old_pixels[i]
                    },
            decreases y2 - y,
        {
            let left = x1 + t;
            let right = x2.saturating_sub(1 + t);
            let ghost before = buffer.pixels@;
            if left < buf_w {
                proof {
                    lemma_pixel_at(bw, left as int, y as int, len as nat);
                    let j = index_of(bw, left as int, y as int);
                    assert(outline_line_covers(bw, bh, gx1, gy1, gx2, gy2, t as int, gx2, gy2, j));
                    assert(outline_covers(bw, bh, gx1, gy1, gx2, gy2, 3, j));
                    assert(y * buf_w <= j);
                }
                buffer.pixels[y * buf_w + left] = RED_COLOR;
            }
            if right < buf_w {
                proof {
                    lemma_pixel_at(bw, right as int, y as int, len as nat);
                    let j = index_of(bw, right as int, y as int);
                    assert(outline_line_covers(bw, bh, gx1, gy1, gx2, gy2, t as int, gx2, gy2, j));
                    assert(outline_covers(bw, bh, gx1, gy1, gx2, gy2, 3, j));
                    assert(y * buf_w <= j);
                }
                buffer.pixels[y * buf_w + right] = RED_COLOR;
            }
            proof {
                if left < buf_w {
                    lemma_pixel_at(bw, left as int, y as int, len as nat);
                }
                if right < buf_w {
                    lemma_pixel_at(bw, right as int, y as int, len as nat);
                }
                assert forall|i: int| 0 <= i < old_pixels.len() implies #[trigger] buffer.pixels@[i]
                    == if outline_covers(bw, bh, gx1, gy1, gx2, gy2, t as int, i)
                    || outline_line_covers(bw, bh, gx1, gy1, gx2, gy2, t as int, gx2, y + 1, i) {
                    RED_COLOR
                } else {
                    old_pixels[i]
                } by {
                    assert(before[i] == buffer.pixels@[i] || row_of(bw, i) == y);
                }
            }
            y += 1;
        }
        t += 1;
    }
}

/// Whether index `i` of a buffer `width` wide lies where a `frame_width` x
/// `frame_height` frame lands when copied with its top-left corner at
/// (offset_x, 0).
pub open spec fn blit_covers(width: nat, offset_x: int, frame_width: int, frame_height: int, i: int) -> bool {
    &&& width > 0
    &&& 0 <= i
    &&& row_of(width, i) < frame_height
    &&& offset_x <= column_of(width, i) < offset_x + frame_width
}

/// The frame pixel that lands on index `i` of the buffer: same row, the
/// column less `offset_x`.
pub open spec fn blit_source(width: nat, offset_x: int, frame_width: int, i: int) -> int {
    row_of(width, i) * frame_width + (column_of(width, i) - offset_x)
}

/// Copies a `frame_width` x `frame_height` frame, row by row, into the
/// buffer with its top-left corner at (offset_x, 0) (the video area between
/// the side panels); every other pixel is left as it was.
pub fn blit_frame(
    buffer: &mut PixelBuffer,
    offset_x: usize,
    frame: &[u32],
    frame_width: usize,
    frame_height: usize,
)
    requires
        offset_x + frame_width <= old(buffer).width,
        frame_width * frame_height <= frame@.len(),
        old(buffer).width * frame_height <= old(buffer).pixels@.len(),
    ensures
        final(buffer).width == old(buffer).width,
        final(buffer).height == old(buffer).height,
        final(buffer).pixels@.len() == old(buffer).pixels@.len(),
        forall|i: int|
            0 <= i < old(buffer).pixels@.len() ==> #[trigger] final(buffer).pixels@[i] == if blit_covers(
                old(buffer).width as nat,
                offset_x as int,
                frame_width as int,
                frame_height as int,
                i,
            ) {
                frame@[blit_source(old(buffer).width as nat, offset_x as int, frame_width as int, i)]
            } else {
                old(buffer).pixels@[i]
            },
{
    let ghost old_pixels = buffer.pixels@;
    let buf_w = buffer.width;
    let buf_h = buffer.height;
    let len = buffer.pixels.len();
    let flen = frame.len();
    let mut row: usize = 0;
    while row < frame_height
        invariant
            buffer.width == buf_w,
            buffer.height == buf_h,
            buffer.pixels@.len() == old_pixels.len(),
            len == old_pixels.len(),
            flen == frame@.len(),
            row <= frame_height,
            offset_x + frame_width <= buf_w,
            frame_width * frame_height <= flen,
            buf_w * frame_height <= len,
            forall|i: int|
                0 <= i < old_pixels.len() ==> #[trigger] buffer.pixels@[i] == if blit_covers(
                    buf_w as nat,
                    offset_x as int,
                    frame_width as int,
                    row as int,
                    i,
                ) {
                    frame@[blit_source(buf_w as nat, offset_x as int, frame_width as int, i)]
                } else {
                    old_pixels[i]
                },
        decreases frame_height - row,
    {
        proof {
            assert((row + 1) * buf_w <= frame_height * buf_w) by (nonlinear_arith)
                requires
                    row < frame_height,
            ;
            assert((row + 1) * frame_width <= frame_height * frame_width) by (nonlinear_arith)
                requires
                    row < frame_height,
            ;
            assert(buf_w * frame_height == frame_height * buf_w) by (nonlinear_arith);
            assert(frame_width * frame_height == frame_height * frame_width) by (nonlinear_arith);
            assert((row + 1) * buf_w == row * buf_w + buf_w) by (nonlinear_arith);
            assert((row + 1) * frame_width == row * frame_width + frame_width) by (nonlinear_arith);
            assert(0 <= row * buf_w) by (nonlinear_arith);
            assert(0 <= row * frame_width) by (nonlinear_arith);
        }
        let row_start = row * buf_w + offset_x;
        let src_start = row * frame_width;
        let mut col: usize = 0;
        while col < frame_width
            invariant
                buffer.width == buf_w,
                buffer.height == buf_h,
                buffer.pixels@.len() == old_pixels.len(),
                len == old_pixels.len(),
                flen == frame@.len(),
                row < frame_height,
                col <= frame_width,
                offset_x + frame_width <= buf_w,
                row_start == row * buf_w + offset_x,
                src_start == row * frame_width,
                row * buf_w + buf_w <= len,
                row * frame_width + frame_width <= flen,
                forall|i: int|
                    0 <= i < old_pixels.len() ==> #[trigger] buffer.pixels@[i] == if blit_covers(
                        buf_w as nat,
                        offset_x as int,
                        frame_width as int,
                        row as int,
                        i,
                    ) || (buf_w > 0 && 0 <= i && row_of(buf_w as nat, i) == row && offset_x <= column_of(
                        buf_w as nat,
                        i,
                    ) < offset_x + col) {
                        frame@[blit_source(buf_w as nat, offset_x as int, frame_width as int, i)]
                    } else {
                        old_pixels[i]
                    },
            decreases frame_width - col,
        {
            let idx = row_start + col;
            let src = src_start + col;
            proof {
                lemma_index_coords(buf_w as nat, (offset_x + col) as int, row as int);
                assert(idx == index_of(buf_w as nat, (offset_x + col) as int, row as int));
                assert(blit_source(buf_w as nat, offset_x as int, frame_width as int, idx as int) == src);
                assert forall|i: int|
                    0 <= i < len && row_of(buf_w as nat, i) == row && column_of(buf_w as nat, i)
                        == offset_x + col implies i == idx by {
                    lemma_index_unique(buf_w as nat, i);
                }
            }
            let v = frame[src];
            buffer.pixels[idx] = v;
            col += 1;
        }
        row += 1;
    }
}

/// The ▶ is 12 pixels wide in its middle row (row 8), empty in its top
/// row, and symmetric about the middle row, narrowing by 1.5 pixels a row
/// (rounded down) towards the top and bottom.
pub proof fn lemma_button_triangle_shape()
    ensures
        triangle_span(PHASE_BUTTON_WIDTH as int, PHASE_BUTTON_HEIGHT as int, 8) == 12,
        triangle_span(PHASE_BUTTON_WIDTH as int, PHASE_BUTTON_HEIGHT as int, 0) == 0,
        forall|d: int|
            1 <= d < 8 ==> #[trigger] triangle_span(PHASE_BUTTON_WIDTH as int, PHASE_BUTTON_HEIGHT as int, 8 - d)
                == triangle_span(PHASE_BUTTON_WIDTH as int, PHASE_BUTTON_HEIGHT as int, 8 + d),
        forall|d: int|
            0 <= d < 8 ==> #[trigger] triangle_span(PHASE_BUTTON_WIDTH as int, PHASE_BUTTON_HEIGHT as int, 8 - d)
                == 12 * (8 - d) / 8,
        forall|d1: int, d2: int|
            0 <= d1 <= d2 <= 8 ==> #[trigger] triangle_span(
                PHASE_BUTTON_WIDTH as int,
                PHASE_BUTTON_HEIGHT as int,
                d1,
            ) <= #[trigger] triangle_span(PHASE_BUTTON_WIDTH as int, PHASE_BUTTON_HEIGHT as int, d2),
{
    assert forall|d1: int, d2: int|
        0 <= d1 <= d2 <= 8 implies #[trigger] triangle_span(
            PHASE_BUTTON_WIDTH as int,
            PHASE_BUTTON_HEIGHT as int,
            d1,
        ) <= #[trigger] triangle_span(PHASE_BUTTON_WIDTH as int, PHASE_BUTTON_HEIGHT as int, d2) by {
        vstd::arithmetic::div_mod::lemma_div_is_ordered(12 * d1, 12 * d2, 8);
    }
}

/// In pixel coordinates, for a crop area that lies inside the buffer and
/// is at least six pixels each way: the outline is exactly the pixels of
/// the shifted area that are within three pixels of one of its edges.
pub proof fn lemma_red_box_is_a_three_pixel_frame(
    buf_width: nat,
    buf_height: nat,
    offset_x: int,
    offset_y: int,
    crop: PixelCropArea,
    px: int,
    py: int,
)
    requires
        0 <= px < buf_width,
        0 <= py < buf_height,
        0 <= offset_x,
        0 <= offset_y,
        offset_x + crop.x + crop.width <= buf_width,
        offset_y + crop.y + crop.height <= buf_height,
        crop.width >= 6,
        crop.height >= 6,
    ensures
        ({
            let x1 = offset_x + crop.x;
            let y1 = offset_y + crop.y;
            let x2 = x1 + crop.width;
            let y2 = y1 + crop.height;
            red_box_covers(buf_width, buf_height, offset_x, offset_y, crop, index_of(buf_width, px, py))
                <==> (x1 <= px < x2 && y1 <= py < y2 && (px < x1 + 3 || px >= x2 - 3 || py < y1 + 3
                || py >= y2 - 3))
        }),
{
    lemma_index_coords(buf_width, px, py);
}

/// In pixel coordinates: a frame copied at column `offset_x` puts frame
/// pixel (fx, fy) at buffer pixel (offset_x + fx, fy), and covers nothing
/// left of `offset_x`, right of the frame or below its last row.
pub proof fn lemma_blit_by_coordinates(
    width: nat,
    offset_x: int,
    frame_width: int,
    frame_height: int,
    px: int,
    py: int,
)
    requires
        0 <= px < width,
        0 <= py,
        0 <= offset_x,
    ensures
        blit_covers(width, offset_x, frame_width, frame_height, index_of(width, px, py)) <==> (
        offset_x <= px < offset_x + frame_width && py < frame_height),
        blit_covers(width, offset_x, frame_width, frame_height, index_of(width, px, py))
            ==> blit_source(width, offset_x, frame_width, index_of(width, px, py)) == py * frame_width
            + (px - offset_x),
{
    lemma_index_coords(width, px, py);
}

} // verus!
