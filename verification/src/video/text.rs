//! A minimal 5x7 bitmap font with no outside dependency, holding just the
//! letters that the placeholder panel text ("TEST TEXT") needs.

use vstd::prelude::*;
use vstd::arithmetic::div_mod::{lemma_fundamental_div_mod, lemma_fundamental_div_mod_converse};

use crate::text_match::chars_of;
use crate::video::buffer::{
    column_of, index_of, lemma_index_coords, lemma_index_monotone, lemma_index_unique, row_of,
};

verus! {

pub const GLYPH_WIDTH: usize = 5;

pub const GLYPH_HEIGHT: usize = 7;

/// The rows of the glyph of `c`, top to bottom; each row is a 5-bit mask
/// whose highest bit is the leftmost column. Letters are matched without
/// regard to case; characters without a glyph give `None`.
pub open spec fn glyph_rows_of(c: char) -> Option<Seq<u8>> {
    if c == 'T' || c == 't' {
        Some(seq![0x1Fu8, 0x04u8, 0x04u8, 0x04u8, 0x04u8, 0x04u8, 0x04u8])
    } else if c == 'E' || c == 'e' {
        Some(seq![0x1Fu8, 0x10u8, 0x10u8, 0x1Eu8, 0x10u8, 0x10u8, 0x1Fu8])
    } else if c == 'S' || c == 's' {
        Some(seq![0x0Fu8, 0x10u8, 0x10u8, 0x0Eu8, 0x01u8, 0x01u8, 0x1Eu8])
    } else if c == 'X' || c == 'x' {
        Some(seq![0x11u8, 0x11u8, 0x0Au8, 0x04u8, 0x0Au8, 0x11u8, 0x11u8])
    } else if c == ' ' {
        Some(seq![0u8, 0u8, 0u8, 0u8, 0u8, 0u8, 0u8])
    } else {
        None
    }
}

/// Whether column `col` (0 is leftmost) of glyph row mask `row` is drawn.
pub open spec fn glyph_cell(row: u8, col: int) -> bool {
    (row >> ((4 - col) as u8)) & 1u8 == 1u8
}

/// The font as it is drawn: for each character with a glyph, seven rows
/// of five cells, `#` for a coloured cell and `.` for an empty one.
/// Letters are drawn the same in either case.
pub open spec fn font_art(c: char) -> Option<Seq<Seq<char>>> {
    if c == 'T' || c == 't' {
        Some(seq![
            seq!['#', '#', '#', '#', '#'],
            seq!['.', '.', '#', '.', '.'],
            seq!['.', '.', '#', '.', '.'],
            seq!['.', '.', '#', '.', '.'],
            seq!['.', '.', '#', '.', '.'],
            seq!['.', '.', '#', '.', '.'],
            seq!['.', '.', '#', '.', '.'],
        ])
    } else if c == 'E' || c == 'e' {
        Some(seq![
            seq!['#', '#', '#', '#', '#'],
            seq!['#', '.', '.', '.', '.'],
            seq!['#', '.', '.', '.', '.'],
            seq!['#', '#', '#', '#', '.'],
            seq!['#', '.', '.', '.', '.'],
            seq!['#', '.', '.', '.', '.'],
            seq!['#', '#', '#', '#', '#'],
        ])
    } else if c == 'S' || c == 's' {
        Some(seq![
            seq!['.', '#', '#', '#', '#'],
            seq!['#', '.', '.', '.', '.'],
            seq!['#', '.', '.', '.', '.'],
            seq!['.', '#', '#', '#', '.'],
            seq!['.', '.', '.', '.', '#'],
            seq!['.', '.', '.', '.', '#'],
            seq!['#', '#', '#', '#', '.'],
        ])
    } else if c == 'X' || c == 'x' {
        Some(seq![
            seq!['#', '.', '.', '.', '#'],
            seq!['#', '.', '.', '.', '#'],
            seq!['.', '#', '.', '#', '.'],
            seq!['.', '.', '#', '.', '.'],
            seq!['.', '#', '.', '#', '.'],
            seq!['#', '.', '.', '.', '#'],
            seq!['#', '.', '.', '.', '#'],
        ])
    } else if c == ' ' {
        Some(seq![
            seq!['.', '.', '.', '.', '.'],
            seq!['.', '.', '.', '.', '.'],
            seq!['.', '.', '.', '.', '.'],
            seq!['.', '.', '.', '.', '.'],
            seq!['.', '.', '.', '.', '.'],
            seq!['.', '.', '.', '.', '.'],
            seq!['.', '.', '.', '.', '.'],
        ])
    } else {
        None
    }
}

/// The place value of column `col` in a glyph row mask: 16 for the
/// leftmost column down to 1 for the rightmost.
pub open spec fn column_weight(col: int) -> int {
    if col == 0 {
        16
    } else if col == 1 {
        8
    } else if col == 2 {
        4
    } else if col == 3 {
        2
    } else {
        1
    }
}

/// Cell `col` of glyph row mask `row` is drawn exactly when the mask's
/// binary digit of weight `column_weight(col)` is 1.
proof fn lemma_glyph_cell_bit(row: u8, col: int)
    requires
        0 <= col < 5,
    ensures
        glyph_cell(row, col) == (row as int / column_weight(col) % 2 == 1),
{
    if col == 4 {
        assert(((row >> 0u8) & 1u8 == 1u8) == (row % 2 == 1)) by (bit_vector);
    } else if col == 3 {
        assert(((row >> 1u8) & 1u8 == 1u8) == (row / 2 % 2 == 1)) by (bit_vector);
    } else if col == 2 {
        assert(((row >> 2u8) & 1u8 == 1u8) == (row / 4 % 2 == 1)) by (bit_vector);
    } else if col == 1 {
        assert(((row >> 3u8) & 1u8 == 1u8) == (row / 8 % 2 == 1)) by (bit_vector);
    } else {
        assert(((row >> 4u8) & 1u8 == 1u8) == (row / 16 % 2 == 1)) by (bit_vector);
    }
}

/// The glyphs are the font's bitmap: a character has a glyph exactly when
/// the font draws it, and cell (row, col) of its glyph is drawn exactly
/// where the font has `#`.
pub proof fn lemma_glyphs_are_the_font(c: char, row: int, col: int)
    requires
        0 <= row < GLYPH_HEIGHT,
        0 <= col < GLYPH_WIDTH,
    ensures
        glyph_rows_of(c) is Some <==> font_art(c) is Some,
        glyph_rows_of(c) is Some ==> glyph_rows_of(c).unwrap().len() == GLYPH_HEIGHT,
        glyph_rows_of(c) is Some ==> (glyph_cell(glyph_rows_of(c).unwrap()[row], col)
            <==> font_art(c).unwrap()[row][col] == '#'),
{
    if glyph_rows_of(c) is Some {
        lemma_glyph_cell_bit(glyph_rows_of(c).unwrap()[row], col);
    }
}


/// The glyph of `c`, if the font has one.
fn glyph_rows(c: char) -> (rows: Option<[u8; GLYPH_HEIGHT]>)
    ensures
        match rows {
            Some(r) => glyph_rows_of(c) == Some(r@),
            None => glyph_rows_of(c) is None,
        },
{
    let rows = if c == 'T' || c == 't' {
        [0x1Fu8, 0x04, 0x04, 0x04, 0x04, 0x04, 0x04]
    } else if c == 'E' || c == 'e' {
        [0x1Fu8, 0x10, 0x10, 0x1E, 0x10, 0x10, 0x1F]
    } else if c == 'S' || c == 's' {
        [0x0Fu8, 0x10, 0x10, 0x0E, 0x01, 0x01, 0x1E]
    } else if c == 'X' || c == 'x' {
        [0x11u8, 0x11, 0x0A, 0x04, 0x0A, 0x11, 0x11]
    } else if c == ' ' {
        [0u8, 0, 0, 0, 0, 0, 0]
    } else {
        return None;
    };
    assert(glyph_rows_of(c) == Some(rows@));
    Some(rows)
}

/// The pixel scale used for a requested scale (at least 1).
pub open spec fn effective_scale(scale: usize) -> int {
    if scale == 0 {
        1
    } else {
        scale as int
    }
}

/// The horizontal distance from one character's left edge to the next's.
pub open spec fn char_advance(scale: usize, char_spacing: usize) -> int {
    GLYPH_WIDTH * effective_scale(scale) + char_spacing
}

/// Where a buffer pixel falls in the text layout: (character, glyph row,
/// glyph column, row within the scaled cell, column within the scaled
/// cell).
pub open spec fn text_cell_of(
    buf_width: int,
    start_x: int,
    start_y: int,
    s: int,
    adv: int,
    i: int,
) -> (int, int, int, int, int) {
    let along = i % buf_width - start_x;
    let down = i / buf_width - start_y;
    let in_char = along % adv;
    (along / adv, down / s, in_char / s, down % s, in_char % s)
}

/// Whether `a` comes before `b`, comparing component by component.
pub open spec fn cell_before(a: (int, int, int, int, int), b: (int, int, int, int, int)) -> bool {
    ||| a.0 < b.0
    ||| a.0 == b.0 && a.1 < b.1
    ||| a.0 == b.0 && a.1 == b.1 && a.2 < b.2
    ||| a.0 == b.0 && a.1 == b.1 && a.2 == b.2 && a.3 < b.3
    ||| a.0 == b.0 && a.1 == b.1 && a.2 == b.2 && a.3 == b.3 && a.4 < b.4
}

/// Whether `draw_text` colours buffer index `i`: the pixel is inside the
/// buffer, inside the scaled cell of a drawn column of some character's
/// glyph. Characters are `char_advance` apart, starting at `start_x`.
pub open spec fn text_covers(
    text: Seq<char>,
    buf_width: usize,
    buf_height: usize,
    start_x: usize,
    start_y: usize,
    scale: usize,
    char_spacing: usize,
    i: int,
) -> bool {
    let s = effective_scale(scale);
    let adv = char_advance(scale, char_spacing);
    let along = column_of(buf_width as nat, i) - start_x;
    let down = row_of(buf_width as nat, i) - start_y;
    let cell = text_cell_of(buf_width as int, start_x as int, start_y as int, s, adv, i);
    &&& buf_width > 0
    &&& 0 <= i
    &&& row_of(buf_width as nat, i) < buf_height
    &&& 0 <= along
    &&& 0 <= down < GLYPH_HEIGHT * s
    &&& cell.0 < text.len()
    &&& along % adv < GLYPH_WIDTH * s
    &&& glyph_rows_of(text[cell.0]) is Some
    &&& glyph_cell(glyph_rows_of(text[cell.0]).unwrap()[cell.1], cell.2)
}

/// The pixels that `draw_text` colours all lie inside the slice.
pub open spec fn text_within(
    len: nat,
    text: Seq<char>,
    buf_width: usize,
    buf_height: usize,
    start_x: usize,
    start_y: usize,
    scale: usize,
    char_spacing: usize,
) -> bool {
    forall|i: int|
        #[trigger] text_covers(
            text,
            buf_width,
            buf_height,
            start_x,
            start_y,
            scale,
            char_spacing,
            i,
        ) ==> i < len
}

/// A pixel position rebuilt from its place in the text layout.
proof fn lemma_cell_position(
    buf_width: int,
    start_x: int,
    start_y: int,
    s: int,
    adv: int,
    i: int,
)
    requires
        buf_width > 0,
        s > 0,
        GLYPH_WIDTH * s <= adv,
        0 <= i,
        start_x <= i % buf_width,
        start_y <= i / buf_width,
        (i % buf_width - start_x) % adv < GLYPH_WIDTH * s,
        i / buf_width - start_y < GLYPH_HEIGHT * s,
    ensures
        ({
            let cell = text_cell_of(buf_width, start_x, start_y, s, adv, i);
            &&& 0 <= cell.0
            &&& 0 <= cell.1 < GLYPH_HEIGHT
            &&& 0 <= cell.2 < GLYPH_WIDTH
            &&& 0 <= cell.3 < s
            &&& 0 <= cell.4 < s
            &&& i % buf_width == start_x + cell.0 * adv + cell.2 * s + cell.4
            &&& i / buf_width == start_y + cell.1 * s + cell.3
        }),
{
    let along = i % buf_width - start_x;
    let down = i / buf_width - start_y;
    let in_char = along % adv;
    lemma_fundamental_div_mod(along, adv);
    lemma_fundamental_div_mod(in_char, s);
    lemma_fundamental_div_mod(down, s);
    assert(0 <= along / adv) by (nonlinear_arith)
        requires
            0 <= along,
            0 < adv,
    ;
    assert(0 <= in_char / s < GLYPH_WIDTH) by (nonlinear_arith)
        requires
            0 <= in_char < GLYPH_WIDTH * s,
            0 < s,
    ;
    assert(0 <= down / s < GLYPH_HEIGHT) by (nonlinear_arith)
        requires
            0 <= down < GLYPH_HEIGHT * s,
            0 < s,
    ;
    assert(adv * (along / adv) == (along / adv) * adv) by (nonlinear_arith);
    assert(s * (in_char / s) == (in_char / s) * s) by (nonlinear_arith);
    assert(s * (down / s) == (down / s) * s) by (nonlinear_arith);
}

/// The place in the text layout of the pixel at (px, py), drawn for
/// character k, glyph cell (r, c), offset (dy, dx) within the cell.
proof fn lemma_cell_of_position(
    buf_width: int,
    start_x: int,
    start_y: int,
    s: int,
    adv: int,
    k: int,
    r: int,
    c: int,
    dy: int,
    dx: int,
    px: int,
    py: int,
)
    requires
        buf_width > 0,
        s > 0,
        GLYPH_WIDTH * s <= adv,
        0 <= k,
        0 <= r < GLYPH_HEIGHT,
        0 <= c < GLYPH_WIDTH,
        0 <= dy < s,
        0 <= dx < s,
        px == start_x + k * adv + c * s + dx,
        py == start_y + r * s + dy,
        0 <= px < buf_width,
        0 <= py,
    ensures
        text_cell_of(buf_width, start_x, start_y, s, adv, index_of(buf_width as nat, px, py)) == (
            k,
            r,
            c,
            dy,
            dx,
        ),
        0 <= px - start_x,
        (px - start_x) % adv < GLYPH_WIDTH * s,
        0 <= py - start_y < GLYPH_HEIGHT * s,
{
    lemma_index_coords(buf_width as nat, px, py);
    assert(c * s + dx < GLYPH_WIDTH * s) by (nonlinear_arith)
        requires
            0 <= c < GLYPH_WIDTH,
            0 <= dx < s,
    ;
    assert(0 <= c * s) by (nonlinear_arith)
        requires
            0 <= c,
            0 < s,
    ;
    assert(0 <= k * adv) by (nonlinear_arith)
        requires
            0 <= k,
            0 < adv,
    ;
    assert(r * s + dy < GLYPH_HEIGHT * s) by (nonlinear_arith)
        requires
            0 <= r < GLYPH_HEIGHT,
            0 <= dy < s,
    ;
    assert(0 <= r * s) by (nonlinear_arith)
        requires
            0 <= r,
            0 < s,
    ;
    lemma_fundamental_div_mod_converse(px - start_x, adv, k, c * s + dx);
    lemma_fundamental_div_mod_converse(c * s + dx, s, c, dx);
    lemma_fundamental_div_mod_converse(py - start_y, s, r, dy);
}

/// Where a pixel that `draw_text` colours sits in the text layout.
proof fn lemma_covered_cell(
    text: Seq<char>,
    buf_width: usize,
    buf_height: usize,
    start_x: usize,
    start_y: usize,
    scale: usize,
    char_spacing: usize,
    i: int,
)
    requires
        text_covers(text, buf_width, buf_height, start_x, start_y, scale, char_spacing, i),
    ensures
        ({
            let s = effective_scale(scale);
            let adv = char_advance(scale, char_spacing);
            let cell = text_cell_of(buf_width as int, start_x as int, start_y as int, s, adv, i);
            &&& 0 <= cell.0 < text.len()
            &&& 0 <= cell.1 < GLYPH_HEIGHT
            &&& 0 <= cell.2 < GLYPH_WIDTH
            &&& 0 <= cell.3 < s
            &&& 0 <= cell.4 < s
            &&& column_of(buf_width as nat, i) == start_x + cell.0 * adv + cell.2 * s + cell.4
            &&& row_of(buf_width as nat, i) == start_y + cell.1 * s + cell.3
            &&& row_of(buf_width as nat, i) < buf_height
            &&& column_of(buf_width as nat, i) < buf_width
            &&& i == index_of(
                buf_width as nat,
                column_of(buf_width as nat, i),
                row_of(buf_width as nat, i),
            )
        }),
{
    let s = effective_scale(scale);
    let adv = char_advance(scale, char_spacing);
    lemma_cell_position(buf_width as int, start_x as int, start_y as int, s, adv, i);
    lemma_index_unique(buf_width as nat, i);
}

/// A scale of 0 draws as a scale of 1.
pub proof fn lemma_scale_zero_draws_as_one(
    text: Seq<char>,
    buf_width: usize,
    buf_height: usize,
    start_x: usize,
    start_y: usize,
    char_spacing: usize,
    i: int,
)
    ensures
        text_covers(text, buf_width, buf_height, start_x, start_y, 0, char_spacing, i)
            == text_covers(text, buf_width, buf_height, start_x, start_y, 1, char_spacing, i),
{
}

/// The ASCII upper-case letter of a lower-case one; any other character
/// as it is.
pub open spec fn ascii_upper(c: char) -> char {
    if 'a' <= c && c <= 'z' {
        ((c as u32) - 32) as char
    } else {
        c
    }
}

/// Letters draw the same in either case: a character and its ASCII
/// upper case have the same glyph, so upper-casing the text changes no
/// pixel.
pub proof fn lemma_lowercase_draws_as_uppercase(
    text: Seq<char>,
    buf_width: usize,
    buf_height: usize,
    start_x: usize,
    start_y: usize,
    scale: usize,
    char_spacing: usize,
    i: int,
)
    ensures
        forall|c: char| #[trigger] glyph_rows_of(ascii_upper(c)) == glyph_rows_of(c),
        text_covers(
            text.map_values(|c: char| ascii_upper(c)),
            buf_width,
            buf_height,
            start_x,
            start_y,
            scale,
            char_spacing,
            i,
        ) == text_covers(text, buf_width, buf_height, start_x, start_y, scale, char_spacing, i),
{
    assert forall|c: char| #[trigger] glyph_rows_of(ascii_upper(c)) == glyph_rows_of(c) by {
        if 'a' <= c && c <= 'z' {
            assert(ascii_upper(c) as u32 == c as u32 - 32);
        }
    }
}

/// A character without a glyph draws nothing and only moves the next
/// character on by one advance: drawing it followed by `rest` at `start_x`
/// colours exactly the pixels that drawing `rest` one advance further
/// right does.
pub proof fn lemma_glyphless_char_only_advances(
    c: char,
    rest: Seq<char>,
    buf_width: usize,
    buf_height: usize,
    start_x: usize,
    start_y: usize,
    scale: usize,
    char_spacing: usize,
    i: int,
)
    requires
        glyph_rows_of(c) is None,
        start_x + char_advance(scale, char_spacing) <= usize::MAX,
    ensures
        text_covers(seq![c] + rest, buf_width, buf_height, start_x, start_y, scale, char_spacing, i)
            == text_covers(
            rest,
            buf_width,
            buf_height,
            (start_x + char_advance(scale, char_spacing)) as usize,
            start_y,
            scale,
            char_spacing,
            i,
        ),
{
    let adv = char_advance(scale, char_spacing);
    let x2 = (start_x + adv) as usize;
    let text = seq![c] + rest;
    if buf_width > 0 && 0 <= i {
        let along = column_of(buf_width as nat, i) - start_x;
        if along >= adv {
            let q = along / adv;
            let r = along % adv;
            lemma_fundamental_div_mod(along, adv);
            vstd::arithmetic::div_mod::lemma_mod_bound(along, adv);
            assert((q - 1) * adv == adv * q - adv) by (nonlinear_arith);
            lemma_fundamental_div_mod_converse(along - adv, adv, q - 1, r);
            assert(q >= 1) by (nonlinear_arith)
                requires
                    along == adv * q + r,
                    r < adv,
                    along >= adv,
                    adv > 0,
            ;
            if q - 1 < rest.len() {
                assert(text[q] == rest[q - 1]);
            }
        } else if along >= 0 {
            lemma_fundamental_div_mod_converse(along, adv, 0, along);
            assert(text[0] == c);
        }
    }
}

/// Text drawn into a buffer of at least `buf_width * buf_height` pixels
/// stays inside it.
pub proof fn lemma_text_within_full_buffer(
    len: nat,
    text: Seq<char>,
    buf_width: usize,
    buf_height: usize,
    start_x: usize,
    start_y: usize,
    scale: usize,
    char_spacing: usize,
)
    requires
        buf_width * buf_height <= len,
    ensures
        text_within(len, text, buf_width, buf_height, start_x, start_y, scale, char_spacing),
{
    assert forall|i: int|
        #[trigger] text_covers(
            text,
            buf_width,
            buf_height,
            start_x,
            start_y,
            scale,
            char_spacing,
            i,
        ) implies i < len by {
        lemma_covered_cell(text, buf_width, buf_height, start_x, start_y, scale, char_spacing, i);
        let col = column_of(buf_width as nat, i);
        let row = row_of(buf_width as nat, i);
        lemma_index_monotone(buf_width as nat, col, row, buf_width - 1, buf_height - 1);
        assert((buf_height - 1) * buf_width + buf_width - 1 < buf_width * buf_height)
            by (nonlinear_arith)
            requires
                buf_width > 0,
                buf_height > 0,
        ;
    }
}

/// Draws `text` into a packed `buf_width` x `buf_height` buffer with its
/// top-left corner at (start_x, start_y): each drawn cell of a glyph
/// becomes a `scale` x `scale` square (a scale of 0 counts as 1) of
/// `color`, characters follow each other `char_spacing` pixels apart, and
/// characters without a glyph leave a gap of one character. Pixels outside
/// the buffer are skipped; all other pixels are left as they were.
#[verifier::loop_isolation(false)]
pub fn draw_text(
    buffer: &mut [u32],
    buf_width: usize,
    buf_height: usize,
    start_x: usize,
    start_y: usize,
    text: &str,
    color: u32,
    scale: usize,
    char_spacing: usize,
)
    requires
        start_x + text@.len() * char_advance(scale, char_spacing) <= usize::MAX,
        start_y + GLYPH_HEIGHT * effective_scale(scale) <= usize::MAX,
        text_within(
            old(buffer)@.len(),
            text@,
            buf_width,
            buf_height,
            start_x,
            start_y,
            scale,
            char_spacing,
        ),
    ensures
        final(buffer)@.len() == old(buffer)@.len(),
        forall|i: int|
            0 <= i < old(buffer)@.len() ==> #[trigger] final(buffer)@[i] == if text_covers(
                text@,
                buf_width,
                buf_height,
                start_x,
                start_y,
                scale,
                char_spacing,
                i,
            ) {
                color
            } else {
                old(buffer)@[i]
            },
{
    let s: usize = if scale == 0 {
        1
    } else {
        scale
    };
    let chars = chars_of(text);
    let n = chars.len();
    let len = buffer.len();
    let ghost old_buf = buffer@;
    let ghost adv = char_advance(scale, char_spacing);
    let ghost bw = buf_width as int;
    let ghost sx = start_x as int;
    let ghost sy = start_y as int;
    let ghost t = text@;
    let mut cursor_x = start_x;
    let mut k: usize = 0;
    while k < n
        invariant
            k <= n,
            cursor_x == sx + k * adv,
            buffer@.len() == old_buf.len(),
            forall|i: int|
                0 <= i < old_buf.len() ==> #[trigger] buffer@[i] == if text_covers(
                    t,
                    buf_width,
                    buf_height,
                    start_x,
                    start_y,
                    scale,
                    char_spacing,
                    i,
                ) && cell_before(text_cell_of(bw, sx, sy, s as int, adv, i), (k as int, 0, 0, 0, 0)) {
                    color
                } else {
                    old_buf[i]
                },
        decreases n - k,
    {
        assert(sx + (k + 1) * adv <= sx + n * adv) by (nonlinear_arith)
            requires
                k < n,
                0 <= adv,
        ;
        assert(sx + (k + 1) * adv == cursor_x + adv) by (nonlinear_arith)
            requires
                cursor_x == sx + k * adv,
        ;
        let advance = GLYPH_WIDTH * s + char_spacing;
        match glyph_rows(chars[k]) {
            None => {
                assert forall|i: int|
                    0 <= i < old_buf.len() && #[trigger] text_covers(
                        t,
                        buf_width,
                        buf_height,
                        start_x,
                        start_y,
                        scale,
                        char_spacing,
                        i,
                    ) implies text_cell_of(bw, sx, sy, s as int, adv, i).0 != k by {
                    lemma_covered_cell(t, buf_width, buf_height, start_x, start_y, scale, char_spacing, i);
                }
            },
            Some(rows) => {
                let mut r: usize = 0;
                while r < GLYPH_HEIGHT
                    invariant
                        r <= GLYPH_HEIGHT,
                        buffer@.len() == old_buf.len(),
                        forall|i: int|
                            0 <= i < old_buf.len() ==> #[trigger] buffer@[i] == if text_covers(
                                t,
                                buf_width,
                                buf_height,
                                start_x,
                                start_y,
                                scale,
                                char_spacing,
                                i,
                            ) && cell_before(
                                text_cell_of(bw, sx, sy, s as int, adv, i),
                                (k as int, r as int, 0, 0, 0),
                            ) {
                                color
                            } else {
                                old_buf[i]
                            },
                    decreases GLYPH_HEIGHT - r,
                {
                    let mut c: usize = 0;
                    while c < GLYPH_WIDTH
                        invariant
                            r < GLYPH_HEIGHT,
                            c <= GLYPH_WIDTH,
                            buffer@.len() == old_buf.len(),
                            forall|i: int|
                                0 <= i < old_buf.len() ==> #[trigger] buffer@[i] == if text_covers(
                                    t,
                                    buf_width,
                                    buf_height,
                                    start_x,
                                    start_y,
                                    scale,
                                    char_spacing,
                                    i,
                                ) && cell_before(
                                    text_cell_of(bw, sx, sy, s as int, adv, i),
                                    (k as int, r as int, c as int, 0, 0),
                                ) {
                                    color
                                } else {
                                    old_buf[i]
                                },
                        decreases GLYPH_WIDTH - c,
                    {
                        if (rows[r] >> ((GLYPH_WIDTH - 1 - c) as u8)) & 1 == 1 {
                            assert(c * s <= 4 * s) by (nonlinear_arith)
                                requires
                                    c < GLYPH_WIDTH,
                            ;
                            assert(r * s <= 6 * s) by (nonlinear_arith)
                                requires
                                    r < GLYPH_HEIGHT,
                            ;
                            let origin_x = cursor_x + c * s;
                            let origin_y = start_y + r * s;
                            let mut dy: usize = 0;
                            while dy < s
                                invariant
                                    r < GLYPH_HEIGHT,
                                    c < GLYPH_WIDTH,
                                    dy <= s,
                                    origin_x == cursor_x + c * s,
                                    origin_y == sy + r * s,
                                    buffer@.len() == old_buf.len(),
                                    forall|i: int|
                                        0 <= i < old_buf.len() ==> #[trigger] buffer@[i] == if text_covers(
                                            t,
                                            buf_width,
                                            buf_height,
                                            start_x,
                                            start_y,
                                            scale,
                                            char_spacing,
                                            i,
                                        ) && cell_before(
                                            text_cell_of(bw, sx, sy, s as int, adv, i),
                                            (k as int, r as int, c as int, dy as int, 0),
                                        ) {
                                            color
                                        } else {
                                            old_buf[i]
                                        },
                                decreases s - dy,
                            {
                                let py = origin_y + dy;
                                if py < buf_height {
                                    let mut dx: usize = 0;
                                    while dx < s
                                        invariant
                                            r < GLYPH_HEIGHT,
                                            c < GLYPH_WIDTH,
                                            dy < s,
                                            dx <= s,
                                            origin_x == cursor_x + c * s,
                                            origin_y == sy + r * s,
                                            py == origin_y + dy,
                                            py < buf_height,
                                            buffer@.len() == old_buf.len(),
                                            forall|i: int|
                                                0 <= i < old_buf.len() ==> #[trigger] buffer@[i]
                                                    == if text_covers(
                                                    t,
                                                    buf_width,
                                                    buf_height,
                                                    start_x,
                                                    start_y,
                                                    scale,
                                                    char_spacing,
                                                    i,
                                                ) && cell_before(
                                                    text_cell_of(bw, sx, sy, s as int, adv, i),
                                                    (k as int, r as int, c as int, dy as int, dx as int),
                                                ) {
                                                    color
                                                } else {
                                                    old_buf[i]
                                                },
                                        decreases s - dx,
                                    {
                                        let px = origin_x + dx;
                                        if px < buf_width {
                                            proof {
                                                lemma_cell_of_position(
                                                    bw,
                                                    sx,
                                                    sy,
                                                    s as int,
                                                    adv,
                                                    k as int,
                                                    r as int,
                                                    c as int,
                                                    dy as int,
                                                    dx as int,
                                                    px as int,
                                                    py as int,
                                                );
                                                lemma_index_coords(buf_width as nat, px as int, py as int);
                                                let j = index_of(buf_width as nat, px as int, py as int);
                                                assert(text_covers(
                                                    t,
                                                    buf_width,
                                                    buf_height,
                                                    start_x,
                                                    start_y,
                                                    scale,
                                                    char_spacing,
                                                    j,
                                                ));
                                                assert(j < len);
                                                assert(py * buf_width <= j);
                                                assert forall|i: int|
                                                    0 <= i < old_buf.len() && #[trigger] text_covers(
                                                        t,
                                                        buf_width,
                                                        buf_height,
                                                        start_x,
                                                        start_y,
                                                        scale,
                                                        char_spacing,
                                                        i,
                                                    ) && text_cell_of(bw, sx, sy, s as int, adv, i)
                                                        == (k as int, r as int, c as int, dy as int, dx as int)
                                                    implies i == j by {
                                                    lemma_covered_cell(
                                                        t,
                                                        buf_width,
                                                        buf_height,
                                                        start_x,
                                                        start_y,
                                                        scale,
                                                        char_spacing,
                                                        i,
                                                    );
                                                }
                                            }
                                            buffer[py * buf_width + px] = color;
                                        } else {
                                            assert forall|i: int|
                                                0 <= i < old_buf.len() && #[trigger] text_covers(
                                                    t,
                                                    buf_width,
                                                    buf_height,
                                                    start_x,
                                                    start_y,
                                                    scale,
                                                    char_spacing,
                                                    i,
                                                ) implies text_cell_of(bw, sx, sy, s as int, adv, i)
                                                    != (k as int, r as int, c as int, dy as int, dx as int) by {
                                                lemma_covered_cell(
                                                    t,
                                                    buf_width,
                                                    buf_height,
                                                    start_x,
                                                    start_y,
                                                    scale,
                                                    char_spacing,
                                                    i,
                                                );
                                            }
                                        }
                                        dx += 1;
                                    }
                                    assert forall|i: int|
                                        0 <= i < old_buf.len() && #[trigger] text_covers(
                                            t,
                                            buf_width,
                                            buf_height,
                                            start_x,
                                            start_y,
                                            scale,
                                            char_spacing,
                                            i,
                                        ) implies text_cell_of(bw, sx, sy, s as int, adv, i).4 < s by {
                                        lemma_covered_cell(
                                            t,
                                            buf_width,
                                            buf_height,
                                            start_x,
                                            start_y,
                                            scale,
                                            char_spacing,
                                            i,
                                        );
                                    }
                                } else {
                                    assert forall|i: int|
                                        0 <= i < old_buf.len() && #[trigger] text_covers(
                                            t,
                                            buf_width,
                                            buf_height,
                                            start_x,
                                            start_y,
                                            scale,
                                            char_spacing,
                                            i,
                                        ) implies !(text_cell_of(bw, sx, sy, s as int, adv, i).0 == k
                                            && text_cell_of(bw, sx, sy, s as int, adv, i).1 == r
                                            && text_cell_of(bw, sx, sy, s as int, adv, i).2 == c
                                            && text_cell_of(bw, sx, sy, s as int, adv, i).3 == dy) by {
                                        lemma_covered_cell(
                                            t,
                                            buf_width,
                                            buf_height,
                                            start_x,
                                            start_y,
                                            scale,
                                            char_spacing,
                                            i,
                                        );
                                    }
                                }
                                dy += 1;
                            }
                            assert forall|i: int|
                                0 <= i < old_buf.len() && #[trigger] text_covers(
                                    t,
                                    buf_width,
                                    buf_height,
                                    start_x,
                                    start_y,
                                    scale,
                                    char_spacing,
                                    i,
                                ) implies text_cell_of(bw, sx, sy, s as int, adv, i).3 < s by {
                                lemma_covered_cell(
                                    t,
                                    buf_width,
                                    buf_height,
                                    start_x,
                                    start_y,
                                    scale,
                                    char_spacing,
                                    i,
                                );
                            }
                        } else {
                            assert forall|i: int|
                                0 <= i < old_buf.len() && #[trigger] text_covers(
                                    t,
                                    buf_width,
                                    buf_height,
                                    start_x,
                                    start_y,
                                    scale,
                                    char_spacing,
                                    i,
                                ) implies !(text_cell_of(bw, sx, sy, s as int, adv, i).0 == k
                                    && text_cell_of(bw, sx, sy, s as int, adv, i).1 == r
                                    && text_cell_of(bw, sx, sy, s as int, adv, i).2 == c) by {
                                lemma_covered_cell(
                                    t,
                                    buf_width,
                                    buf_height,
                                    start_x,
                                    start_y,
                                    scale,
                                    char_spacing,
                                    i,
                                );
                            }
                        }
                        c += 1;
                    }
                    assert forall|i: int|
                        0 <= i < old_buf.len() && #[trigger] text_covers(
                            t,
                            buf_width,
                            buf_height,
                            start_x,
                            start_y,
                            scale,
                            char_spacing,
                            i,
                        ) implies text_cell_of(bw, sx, sy, s as int, adv, i).2 < GLYPH_WIDTH by {
                        lemma_covered_cell(t, buf_width, buf_height, start_x, start_y, scale, char_spacing, i);
                    }
                    r += 1;
                }
                assert forall|i: int|
                    0 <= i < old_buf.len() && #[trigger] text_covers(
                        t,
                        buf_width,
                        buf_height,
                        start_x,
                        start_y,
                        scale,
                        char_spacing,
                        i,
                    ) implies text_cell_of(bw, sx, sy, s as int, adv, i).1 < GLYPH_HEIGHT by {
                    lemma_covered_cell(t, buf_width, buf_height, start_x, start_y, scale, char_spacing, i);
                }
            },
        }
        cursor_x = cursor_x + advance;
        k += 1;
    }
    assert forall|i: int|
        0 <= i < old_buf.len() && #[trigger] text_covers(
            t,
            buf_width,
            buf_height,
            start_x,
            start_y,
            scale,
            char_spacing,
            i,
        ) implies text_cell_of(bw, sx, sy, s as int, adv, i).0 < n by {
        lemma_covered_cell(t, buf_width, buf_height, start_x, start_y, scale, char_spacing, i);
    }
}

} // verus!
