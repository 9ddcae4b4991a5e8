//! The "使用率更新" (update usage statistics) button under the phase
//! information.

use vstd::prelude::*;

use crate::video::buffer::{index_of, lemma_index_coords, PixelBuffer};
use crate::video::display::phase_button::{button_press, press_step, rect_fits, ButtonRect};

verus! {

/// The button border's colour (cyan).
pub const BORDER_COLOR: u32 = 0x00C8_00FF;

/// The label text's colour.
pub const LABEL_COLOR: u32 = 0x00FF_FFFF;

/// The space between the label and the border.
pub const PADDING: usize = 6;

/// The button's label.
pub const LABEL: &'static str = "使用率更新";

/// Index `i` is column `col` of the top or bottom row of the border.
pub open spec fn on_border_row(buf_width: int, x: int, y: int, height: int, col: int, i: int) -> bool {
    i == y * buf_width + x + col || (height >= 2 && i == (y + height - 1) * buf_width + x + col)
}

/// Index `i` is row `row` of the left or right column of the border.
pub open spec fn on_border_column(buf_width: int, x: int, y: int, width: int, row: int, i: int) -> bool {
    i == (y + row) * buf_width + x || (width >= 2 && i == (y + row) * buf_width + x + width - 1)
}

/// Index `i` is a pixel of the one-pixel border of the `width` x `height`
/// rectangle at (x, y), counted as `row * buf_width + column` (so a column
/// past the buffer's width falls on the next row): one of the first `cols`
/// columns of its top or bottom row, or one of the first `rows` rows of its
/// left or right column.
pub open spec fn border_covers(
    buf_width: int,
    x: int,
    y: int,
    width: int,
    height: int,
    cols: int,
    rows: int,
    i: int,
) -> bool {
    ||| exists|col: int| 0 <= col < cols && #[trigger] on_border_row(buf_width, x, y, height, col, i)
    ||| exists|row: int| 0 <= row < rows && #[trigger] on_border_column(buf_width, x, y, width, row, i)
}

/// The indices the border computes stay within `usize`.
pub open spec fn border_fits(buf_width: usize, x: usize, y: usize, width: usize, height: usize) -> bool {
    let last_row = if height > 0 {
        y + height - 1
    } else {
        y as int
    };
    let last_col = if width > 0 {
        x + width - 1
    } else {
        x as int
    };
    &&& x + width <= usize::MAX
    &&& y + height <= usize::MAX
    &&& width > 0 || height > 0 ==> last_row * buf_width + last_col <= usize::MAX
}

proof fn lemma_border_index_fits(
    buf_width: usize,
    x: usize,
    y: usize,
    width: usize,
    height: usize,
    px: int,
    py: int,
)
    requires
        border_fits(buf_width, x, y, width, height),
        width > 0 || height > 0,
        x <= px,
        px < x + width || px == x,
        y <= py,
        py < y + height || py == y,
    ensures
        0 <= py * buf_width <= py * buf_width + px <= usize::MAX,
{
    let last_row = if height > 0 {
        y + height - 1
    } else {
        y as int
    };
    assert(py * buf_width <= last_row * buf_width) by (nonlinear_arith)
        requires
            0 <= py <= last_row,
            0 <= buf_width,
    ;
    assert(0 <= py * buf_width) by (nonlinear_arith)
        requires
            0 <= py,
            0 <= buf_width,
    ;
}

/// Colours index `py * buf_width + px` with the border colour if it is
/// inside the slice.
fn set_pixel(pixels: &mut [u32], buf_width: usize, px: usize, py: usize)
    requires
        py * buf_width + px <= usize::MAX,
    ensures
        final(pixels)@.len() == old(pixels)@.len(),
        final(pixels)@ == if py * buf_width + px < old(pixels)@.len() {
            old(pixels)@.update(py * buf_width + px, BORDER_COLOR)
        } else {
            old(pixels)@
        },
{
    assert(0 <= py * buf_width) by (nonlinear_arith);
    let idx = py * buf_width + px;
    if idx < pixels.len() {
        pixels[idx] = BORDER_COLOR;
    }
}

/// Draws the one-pixel border of the `width` x `height` rectangle at
/// (x, y): the top and bottom rows and the left and right columns (a
/// single row or column when the size is 1). Indices past the end of the
/// slice are skipped; all other pixels are left as they were.
pub fn draw_border(buffer: &mut PixelBuffer, x: usize, y: usize, width: usize, height: usize)
    requires
        border_fits(old(buffer).width, x, y, width, height),
    ensures
        final(buffer).width == old(buffer).width,
        final(buffer).height == old(buffer).height,
        final(buffer).pixels@.len() == old(buffer).pixels@.len(),
        forall|i: int|
            0 <= i < old(buffer).pixels@.len() ==> #[trigger] final(buffer).pixels@[i] == if border_covers(
                old(buffer).width as int,
                x as int,
                y as int,
                width as int,
                height as int,
                width as int,
                height as int,
                i,
            ) {
                BORDER_COLOR
            } else {
                old(buffer).pixels@[i]
            },
{
    let buf_w = buffer.width;
    let buf_h = buffer.height;
    let ghost old_pixels = buffer.pixels@;
    let ghost bw = buf_w as int;
    let mut col: usize = 0;
    while col < width
        invariant
            buffer.width == buf_w,
            buffer.height == buf_h,
            bw == buf_w,
            buffer.pixels@.len() == old_pixels.len(),
            border_fits(buf_w, x, y, width, height),
            col <= width,
            forall|i: int|
                0 <= i < old_pixels.len() ==> #[trigger] buffer.pixels@[i] == if border_covers(
                    bw,
                    x as int,
                    y as int,
                    width as int,
                    height as int,
                    col as int,
                    0,
                    i,
                ) {
                    BORDER_COLOR
                } else {
                    old_pixels[i]
                },
        decreases width - col,
    {
        proof {
            lemma_border_index_fits(buf_w, x, y, width, height, x + col, y as int);
            if height >= 2 {
                lemma_border_index_fits(buf_w, x, y, width, height, x + col, y + height - 1);
            }
        }
        let ghost before = buffer.pixels@;
        set_pixel(buffer.pixels, buf_w, x + col, y);
        if height >= 2 {
            set_pixel(buffer.pixels, buf_w, x + col, y + height - 1);
        }
        proof {
            assert forall|i: int| 0 <= i < old_pixels.len() implies #[trigger] buffer.pixels@[i]
                == if border_covers(bw, x as int, y as int, width as int, height as int, col + 1, 0, i) {
                BORDER_COLOR
            } else {
                old_pixels[i]
            } by {
                if on_border_row(bw, x as int, y as int, height as int, col as int, i) {
                    assert(buffer.pixels@[i] == BORDER_COLOR);
                    assert(border_covers(bw, x as int, y as int, width as int, height as int, col + 1, 0, i));
                } else {
                    assert(buffer.pixels@[i] == before[i]);
                    if border_covers(bw, x as int, y as int, width as int, height as int, col + 1, 0, i) {
                        let c = choose|c: int| 0 <= c < col + 1 && #[trigger] on_border_row(bw, x as int, y as int, height as int, c, i);
                        assert(c < col);
                        assert(border_covers(bw, x as int, y as int, width as int, height as int, col as int, 0, i));
                    }
                }
            }
        }
        col += 1;
    }
    let mut row: usize = 0;
    while row < height
        invariant
            buffer.width == buf_w,
            buffer.height == buf_h,
            bw == buf_w,
            buffer.pixels@.len() == old_pixels.len(),
            border_fits(buf_w, x, y, width, height),
            row <= height,
            forall|i: int|
                0 <= i < old_pixels.len() ==> #[trigger] buffer.pixels@[i] == if border_covers(
                    bw,
                    x as int,
                    y as int,
                    width as int,
                    height as int,
                    width as int,
                    row as int,
                    i,
                ) {
                    BORDER_COLOR
                } else {
                    old_pixels[i]
                },
        decreases height - row,
    {
        proof {
            lemma_border_index_fits(buf_w, x, y, width, height, x as int, y + row);
            if width >= 2 {
                lemma_border_index_fits(buf_w, x, y, width, height, x + width - 1, y + row);
            }
        }
        let ghost before = buffer.pixels@;
        set_pixel(buffer.pixels, buf_w, x, y + row);
        if width >= 2 {
            set_pixel(buffer.pixels, buf_w, x + width - 1, y + row);
        }
        proof {
            assert forall|i: int| 0 <= i < old_pixels.len() implies #[trigger] buffer.pixels@[i]
                == if border_covers(bw, x as int, y as int, width as int, height as int, width as int, row + 1, i) {
                BORDER_COLOR
            } else {
                old_pixels[i]
            } by {
                if on_border_column(bw, x as int, y as int, width as int, row as int, i) {
                    assert(buffer.pixels@[i] == BORDER_COLOR);
                    assert(border_covers(bw, x as int, y as int, width as int, height as int, width as int, row + 1, i));
                } else {
                    assert(buffer.pixels@[i] == before[i]);
                    if border_covers(bw, x as int, y as int, width as int, height as int, width as int, row + 1, i)
                        && !(exists|c: int| 0 <= c < width && #[trigger] on_border_row(bw, x as int, y as int, height as int, c, i)) {
                        let r = choose|r: int| 0 <= r < row + 1 && #[trigger] on_border_column(bw, x as int, y as int, width as int, r, i);
                        assert(r < row);
                        assert(border_covers(bw, x as int, y as int, width as int, height as int, width as int, row as int, i));
                    }
                }
            }
        }
        row += 1;
    }
}

/// The button: where it is drawn and whether the mouse is held on it.
pub struct UsageButton {
    rect: ButtonRect,
    pressed: bool,
}

impl UsageButton {
    /// Where the button is, `None` before it is first drawn.
    pub closed spec fn rect(&self) -> ButtonRect {
        self.rect
    }

    /// Whether the mouse button is held since a click on it.
    pub closed spec fn pressed(&self) -> bool {
        self.pressed
    }

    #[verifier::type_invariant]
    spec fn rect_in_range(&self) -> bool {
        rect_fits(self.rect)
    }

    /// A button not yet drawn.
    pub fn new() -> (b: Self)
        ensures
            b.rect() is None,
            !b.pressed(),
    {
        UsageButton { rect: None, pressed: false }
    }

    /// Frames the label, drawn at (x + 6, y + 6) with size `label_size`, in
    /// a border 6 pixels away from it on each side, and makes that box the
    /// button's hit area.
    pub fn update_for_label(
        &mut self,
        buffer: &mut PixelBuffer,
        x: usize,
        y: usize,
        label_size: (usize, usize),
    )
        requires
            label_size.0 + 2 * PADDING <= usize::MAX,
            label_size.1 + 2 * PADDING <= usize::MAX,
            border_fits(
                old(buffer).width,
                x,
                y,
                (label_size.0 + 2 * PADDING) as usize,
                (label_size.1 + 2 * PADDING) as usize,
            ),
        ensures
            final(self).pressed() == old(self).pressed(),
            final(self).rect() == Some(
                (x, y, (label_size.0 + 2 * PADDING) as usize, (label_size.1 + 2 * PADDING) as usize),
            ),
            final(buffer).width == old(buffer).width,
            final(buffer).height == old(buffer).height,
            final(buffer).pixels@.len() == old(buffer).pixels@.len(),
            forall|i: int|
                0 <= i < old(buffer).pixels@.len() ==> #[trigger] final(buffer).pixels@[i] == if border_covers(
                    old(buffer).width as int,
                    x as int,
                    y as int,
                    label_size.0 + 2 * PADDING,
                    label_size.1 + 2 * PADDING,
                    label_size.0 + 2 * PADDING,
                    label_size.1 + 2 * PADDING,
                    i,
                ) {
                    BORDER_COLOR
                } else {
                    old(buffer).pixels@[i]
                },
    {
        let width = label_size.0 + PADDING * 2;
        let height = label_size.1 + PADDING * 2;
        draw_border(buffer, x, y, width, height);
        self.rect = Some((x, y, width, height));
    }

    /// Takes one reading of the mouse; `true` exactly at the moment the left
    /// button goes down over the button.
    pub fn handle_mouse(&mut self, mouse_down: bool, mouse_pos: Option<(usize, usize)>) -> (clicked:
        bool)
        ensures
            (final(self).pressed(), clicked) == press_step(
                old(self).pressed(),
                old(self).rect(),
                mouse_down,
                mouse_pos,
            ),
            final(self).rect() == old(self).rect(),
    {
        proof {
            use_type_invariant(&*self);
        }
        let mut pressed = self.pressed;
        let clicked = button_press(&mut pressed, self.rect, mouse_down, mouse_pos);
        self.pressed = pressed;
        clicked
    }
}

/// In pixel coordinates, for a rectangle inside the buffer's width: the
/// border is exactly the pixels of the rectangle on its first or last row
/// or its first or last column.
pub proof fn lemma_border_by_coordinates(
    buf_width: usize,
    x: usize,
    y: usize,
    width: usize,
    height: usize,
    px: int,
    py: int,
)
    requires
        0 <= px < buf_width,
        0 <= py,
        x + width <= buf_width,
        width >= 1,
        height >= 1,
    ensures
        border_covers(
            buf_width as int,
            x as int,
            y as int,
            width as int,
            height as int,
            width as int,
            height as int,
            index_of(buf_width as nat, px, py),
        ) <==> (x <= px < x + width && y <= py < y + height && (px == x || px == x + width - 1 || py
            == y || py == y + height - 1)),
{
    let bw = buf_width as int;
    let i = index_of(buf_width as nat, px, py);
    lemma_index_coords(buf_width as nat, px, py);
    if x <= px < x + width && y <= py < y + height {
        if py == y {
            assert(on_border_row(bw, x as int, y as int, height as int, px - x, i));
        } else if py == y + height - 1 {
            assert(on_border_row(bw, x as int, y as int, height as int, px - x, i));
        } else if px == x {
            assert(on_border_column(bw, x as int, y as int, width as int, py - y, i));
        } else if px == x + width - 1 {
            assert(on_border_column(bw, x as int, y as int, width as int, py - y, i));
        }
    }
    assert forall|col: int| 0 <= col < width && #[trigger] on_border_row(
        bw,
        x as int,
        y as int,
        height as int,
        col,
        i,
    ) implies x <= px < x + width && y <= py < y + height && (py == y || py == y + height - 1) by {
        if i == y * bw + x + col {
            lemma_index_coords(buf_width as nat, x + col, y as int);
        } else {
            lemma_index_coords(buf_width as nat, x + col, y + height - 1);
        }
    }
    assert forall|row: int| 0 <= row < height && #[trigger] on_border_column(
        bw,
        x as int,
        y as int,
        width as int,
        row,
        i,
    ) implies x <= px < x + width && y <= py < y + height && (px == x || px == x + width - 1) by {
        if i == (y + row) * bw + x {
            lemma_index_coords(buf_width as nat, x as int, y + row);
        } else {
            lemma_index_coords(buf_width as nat, x + width - 1, y + row);
        }
    }
}

} // verus!
