//! A pixel buffer bundled with its dimensions, so that drawing functions
//! take one argument for the target.

use vstd::prelude::*;
use vstd::arithmetic::div_mod::{lemma_fundamental_div_mod, lemma_fundamental_div_mod_converse};

verus! {

/// The column of the pixel at index `i` of a row-major buffer `width` wide.
pub open spec fn column_of(width: nat, i: int) -> int {
    i % (width as int)
}

/// The row of the pixel at index `i` of a row-major buffer `width` wide.
pub open spec fn row_of(width: nat, i: int) -> int {
    i / (width as int)
}

/// The index of pixel (px, py) in a row-major buffer `width` wide.
pub open spec fn index_of(width: nat, px: int, py: int) -> int {
    py * width + px
}

/// Whether index `i` of a `width` x `height` buffer lies in the rectangle of
/// `w` x `h` pixels whose top-left corner is (x, y), clipped to the buffer.
pub open spec fn rect_covers(width: nat, height: nat, x: int, y: int, w: int, h: int, i: int) -> bool {
    &&& width > 0
    &&& 0 <= i
    &&& row_of(width, i) < height
    &&& y <= row_of(width, i) < y + h
    &&& x <= column_of(width, i) < x + w
}

/// The smaller of two integers.
pub open spec fn min_int(a: int, b: int) -> int {
    if a <= b { a } else { b }
}

/// Every pixel of the clipped rectangle has an index below `len`: the last
/// pixel of the clipped rectangle (bottom-right) is inside the slice.
pub open spec fn rect_within(len: nat, width: nat, height: nat, x: int, y: int, w: int, h: int) -> bool {
    let x_end = min_int(x + w, width as int);
    let y_end = min_int(y + h, height as int);
    (x < x_end && y < y_end) ==> index_of(width, x_end - 1, y_end - 1) < len
}

/// The pixel at (px, py) of a buffer `width` wide sits at `py * width + px`,
/// and that index maps back to (px, py).
pub proof fn lemma_index_coords(width: nat, px: int, py: int)
    requires
        0 <= px < width,
        0 <= py,
    ensures
        column_of(width, index_of(width, px, py)) == px,
        row_of(width, index_of(width, px, py)) == py,
        0 <= index_of(width, px, py),
{
    lemma_fundamental_div_mod_converse(index_of(width, px, py), width as int, py, px);
    assert(0 <= py * width) by (nonlinear_arith)
        requires
            0 <= py,
    ;
}

/// An index is determined by its row and column.
pub proof fn lemma_index_unique(width: nat, i: int)
    requires
        width > 0,
    ensures
        i == index_of(width, column_of(width, i), row_of(width, i)),
{
    lemma_fundamental_div_mod(i, width as int);
    assert(row_of(width, i) * width == width * row_of(width, i)) by (nonlinear_arith);
}

/// Indices grow with rows and, within a row, with columns.
pub proof fn lemma_index_monotone(width: nat, px1: int, py1: int, px2: int, py2: int)
    requires
        0 <= px1 < width,
        0 <= px2 < width,
        0 <= py1 <= py2,
        py1 < py2 || px1 <= px2,
    ensures
        index_of(width, px1, py1) <= index_of(width, px2, py2),
{
    if py1 < py2 {
        assert(py1 * width + width <= py2 * width) by (nonlinear_arith)
            requires
                py1 < py2,
                0 <= width,
        ;
    }
}

/// A clipped rectangle is inside any buffer holding at least
/// `width * height` pixels.
pub proof fn lemma_rect_within_full_buffer(
    len: nat,
    width: nat,
    height: nat,
    x: int,
    y: int,
    w: int,
    h: int,
)
    requires
        width * height <= len,
        0 <= x,
        0 <= y,
    ensures
        rect_within(len, width, height, x, y, w, h),
{
    let x_end = min_int(x + w, width as int);
    let y_end = min_int(y + h, height as int);
    if x < x_end && y < y_end {
        lemma_index_monotone(width, x_end - 1, y_end - 1, width - 1, height - 1);
        assert((height - 1) * width + width - 1 < width * height) by (nonlinear_arith)
            requires
                width > 0,
                height > 0,
        ;
    }
}

/// A row-major buffer of packed pixels: pixel (x, y) lives at index
/// `y * width + x`.
pub struct PixelBuffer<'a> {
    pub pixels: &'a mut [u32],
    pub width: usize,
    pub height: usize,
}

impl<'a> PixelBuffer<'a> {
    pub fn new(pixels: &'a mut [u32], width: usize, height: usize) -> (buffer: Self)
        ensures
            buffer.pixels@ == old(pixels)@,
            buffer.width == width,
            buffer.height == height,
    {
        PixelBuffer { pixels, width, height }
    }

    /// The pixel data, for drawing into directly.
    pub fn pixels_mut(&mut self) -> (pixels: &mut [u32])
        ensures
            pixels@ == old(self).pixels@,
            final(self).pixels@ == final(pixels)@,
            final(self).width == old(self).width,
            final(self).height == old(self).height,
    {
        self.pixels
    }

    /// Fills the `width` x `height` rectangle whose top-left corner is
    /// (x, y) with `color`, clipped at the buffer's right and bottom edges.
    /// Every other pixel is left as it was.
    pub fn clear_rect(&mut self, x: usize, y: usize, width: usize, height: usize, color: u32)
        requires
            rect_within(
                old(self).pixels@.len(),
                old(self).width as nat,
                old(self).height as nat,
                x as int,
                y as int,
                width as int,
                height as int,
            ),
        ensures
            final(self).width == old(self).width,
            final(self).height == old(self).height,
            final(self).pixels@.len() == old(self).pixels@.len(),
            forall|i: int|
                0 <= i < old(self).pixels@.len() ==> #[trigger] final(self).pixels@[i] == if rect_covers(
                    old(self).width as nat,
                    old(self).height as nat,
                    x as int,
                    y as int,
                    width as int,
                    height as int,
                    i,
                ) {
                    color
                } else {
                    old(self).pixels@[i]
                },
    {
        let ghost old_pixels = self.pixels@;
        let buf_w = self.width;
        let buf_h = self.height;
        let len = self.pixels.len();
        let rows = if y < buf_h {
            if height < buf_h - y {
                height
            } else {
                buf_h - y
            }
        } else {
            0
        };
        let cols = if x < buf_w {
            if width < buf_w - x {
                width
            } else {
                buf_w - x
            }
        } else {
            0
        };
        let mut row: usize = 0;
        while row < rows
            invariant
                self.width == buf_w,
                self.height == buf_h,
                self.pixels@.len() == old_pixels.len(),
                len == old_pixels.len(),
                row <= rows,
                rows == 0 || (y + rows <= buf_h && rows <= height),
                rows == 0 ==> (y >= buf_h || height == 0),
                cols == 0 || (x + cols <= buf_w && cols <= width),
                cols == 0 ==> (x >= buf_w || width == 0),
                rows == min_int(y + height, buf_h as int) - y || rows == 0,
                cols == min_int(x + width, buf_w as int) - x || cols == 0,
                rect_within(old_pixels.len(), buf_w as nat, buf_h as nat, x as int, y as int, width as int, height as int),
                forall|i: int|
                    0 <= i < old_pixels.len() ==> #[trigger] self.pixels@[i] == if rect_covers(
                        buf_w as nat,
                        buf_h as nat,
                        x as int,
                        y as int,
                        width as int,
                        row as int,
                        i,
                    ) {
                        color
                    } else {
                        old_pixels[i]
                    },
            decreases rows - row,
        {
            let py = y + row;
            let mut col: usize = 0;
            while col < cols
                invariant
                    self.width == buf_w,
                    self.height == buf_h,
                    self.pixels@.len() == old_pixels.len(),
                    len == old_pixels.len(),
                    row < rows,
                    py == y + row,
                    col <= cols,
                    y + rows <= buf_h,
                    rows <= height,
                    cols == 0 || (x + cols <= buf_w && cols <= width),
                    rows == min_int(y + height, buf_h as int) - y,
                    cols == min_int(x + width, buf_w as int) - x || cols == 0,
                    rect_within(old_pixels.len(), buf_w as nat, buf_h as nat, x as int, y as int, width as int, height as int),
                    forall|i: int|
                        0 <= i < old_pixels.len() ==> #[trigger] self.pixels@[i] == if rect_covers(
                            buf_w as nat,
                            buf_h as nat,
                            x as int,
                            y as int,
                            width as int,
                            row as int,
                            i,
                        ) || rect_covers(
                            buf_w as nat,
                            buf_h as nat,
                            x as int,
                            py as int,
                            col as int,
                            1,
                            i,
                        ) {
                            color
                        } else {
                            old_pixels[i]
                        },
                decreases cols - col,
            {
                let px = x + col;
                proof {
                    lemma_index_coords(buf_w as nat, px as int, py as int);
                    lemma_index_monotone(
                        buf_w as nat,
                        px as int,
                        py as int,
                        x + cols - 1,
                        y + rows - 1,
                    );
                    assert(cols > 0);
                    assert(index_of(buf_w as nat, x + cols - 1, y + rows - 1) < old_pixels.len());
                    assert(py * buf_w + px < old_pixels.len());
                    assert(py * buf_w <= py * buf_w + px);
                }
                let idx = py * buf_w + px;
                proof {
                    assert forall|i: int|
                        0 <= i < len && row_of(buf_w as nat, i) == py && column_of(buf_w as nat, i)
                            == px implies i == idx by {
                        lemma_index_unique(buf_w as nat, i);
                    }
                }
                self.pixels[idx] = color;
                col += 1;
            }
            row += 1;
        }
    }
}


/// In pixel coordinates: the pixel (px, py) of a `width` x `height` buffer
/// is in the clipped rectangle exactly when x <= px < x + w and
/// y <= py < y + h.
pub proof fn lemma_rect_covers_by_coordinates(
    width: nat,
    height: nat,
    x: int,
    y: int,
    w: int,
    h: int,
    px: int,
    py: int,
)
    requires
        0 <= px < width,
        0 <= py < height,
    ensures
        rect_covers(width, height, x, y, w, h, index_of(width, px, py)) <==> (x <= px < x + w && y
            <= py < y + h),
{
    lemma_index_coords(width, px, py);
}

} // verus!
