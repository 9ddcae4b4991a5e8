//! Crop areas: in pixels of a frame, and relative to the frame's size.

use vstd::prelude::*;

verus! {

/// A rectangle of a frame, in pixels: top-left corner (x, y) and size.
#[derive(Debug, Clone, Copy, PartialEq, Eq)]
pub struct CropArea {
    pub x: usize,
    pub y: usize,
    pub width: usize,
    pub height: usize,
}

/// A crop area given in pixels of a frame (the result of scaling a relative
/// crop area to a frame's size).
pub type PixelCropArea = CropArea;

/// The smallest width and height a crop area is clamped to.
pub const MIN_CROP_SIZE: usize = 20;

/// `v` restricted to `lo..=hi`.
pub open spec fn clamp_spec(v: int, lo: int, hi: int) -> int {
    if v < lo {
        lo
    } else if v > hi {
        hi
    } else {
        v
    }
}

/// What `CropArea::clamp` makes of `c` for a `max_w` x `max_h` frame: the
/// size is held within `20..=max`, then the corner is moved so that the
/// rectangle ends inside the frame.
pub open spec fn clamped(c: CropArea, max_w: usize, max_h: usize) -> CropArea {
    let width = clamp_spec(c.width as int, MIN_CROP_SIZE as int, max_w as int);
    let height = clamp_spec(c.height as int, MIN_CROP_SIZE as int, max_h as int);
    CropArea {
        x: clamp_spec(c.x as int, 0, max_w - width) as usize,
        y: clamp_spec(c.y as int, 0, max_h - height) as usize,
        width: width as usize,
        height: height as usize,
    }
}

/// `v` restricted to `lo..=hi` (std's `Ord::clamp`, which panics when
/// `lo > hi`).
fn clamp_usize(v: usize, lo: usize, hi: usize) -> (r: usize)
    requires
        lo <= hi,
    ensures
        r as int == clamp_spec(v as int, lo as int, hi as int),
{
    if v < lo {
        lo
    } else if v > hi {
        hi
    } else {
        v
    }
}

impl CropArea {
    /// The default crop area of a 1280x720 frame.
    pub fn default_720p() -> (c: Self)
        ensures
            c == (CropArea { x: 520, y: 90, width: 240, height: 60 }),
    {
        CropArea { x: 520, y: 90, width: 240, height: 60 }
    }

    /// Keeps the crop area inside a `max_w` x `max_h` frame: width and
    /// height are held within `20..=max_w` and `20..=max_h`, then x and y
    /// are held so that the rectangle ends inside the frame.
    pub fn clamp(&mut self, max_w: usize, max_h: usize)
        requires
            MIN_CROP_SIZE <= max_w,
            MIN_CROP_SIZE <= max_h,
        ensures
            *final(self) == clamped(*old(self), max_w, max_h),
    {
        self.width = clamp_usize(self.width, MIN_CROP_SIZE, max_w);
        self.height = clamp_usize(self.height, MIN_CROP_SIZE, max_h);
        self.x = clamp_usize(self.x, 0, max_w.saturating_sub(self.width));
        self.y = clamp_usize(self.y, 0, max_h.saturating_sub(self.height));
    }
}

/// A clamped crop area is at least 20 x 20, at most the frame's size, and
/// lies inside the frame.
pub proof fn lemma_clamped_inside_frame(c: CropArea, max_w: usize, max_h: usize)
    requires
        MIN_CROP_SIZE <= max_w,
        MIN_CROP_SIZE <= max_h,
    ensures
        MIN_CROP_SIZE <= clamped(c, max_w, max_h).width <= max_w,
        MIN_CROP_SIZE <= clamped(c, max_w, max_h).height <= max_h,
        clamped(c, max_w, max_h).x + clamped(c, max_w, max_h).width <= max_w,
        clamped(c, max_w, max_h).y + clamped(c, max_w, max_h).height <= max_h,
{
}

/// Clamping moves a crop area no further than it must: a width or height
/// within `20..=max` is kept, and x (y) is kept where the area fits
/// across (down) the frame; otherwise it is held so that the area ends at
/// the frame's right (bottom) edge.
pub proof fn lemma_clamped_moves_least(c: CropArea, max_w: usize, max_h: usize)
    requires
        MIN_CROP_SIZE <= max_w,
        MIN_CROP_SIZE <= max_h,
    ensures
        MIN_CROP_SIZE <= c.width <= max_w ==> clamped(c, max_w, max_h).width == c.width,
        MIN_CROP_SIZE <= c.height <= max_h ==> clamped(c, max_w, max_h).height == c.height,
        c.width < MIN_CROP_SIZE ==> clamped(c, max_w, max_h).width == MIN_CROP_SIZE,
        c.width > max_w ==> clamped(c, max_w, max_h).width == max_w,
        c.x + clamped(c, max_w, max_h).width <= max_w ==> clamped(c, max_w, max_h).x == c.x,
        c.x + clamped(c, max_w, max_h).width > max_w ==> clamped(c, max_w, max_h).x + clamped(
            c,
            max_w,
            max_h,
        ).width == max_w,
        c.y + clamped(c, max_w, max_h).height <= max_h ==> clamped(c, max_w, max_h).y == c.y,
        c.y + clamped(c, max_w, max_h).height > max_h ==> clamped(c, max_w, max_h).y + clamped(
            c,
            max_w,
            max_h,
        ).height == max_h,
{
}

/// Clamping twice to the same frame is the same as clamping once.
pub proof fn lemma_clamped_idempotent(c: CropArea, max_w: usize, max_h: usize)
    requires
        MIN_CROP_SIZE <= max_w,
        MIN_CROP_SIZE <= max_h,
    ensures
        clamped(clamped(c, max_w, max_h), max_w, max_h) == clamped(c, max_w, max_h),
{
}

/// The ratio scale of relative crop coordinates: 10000 stands for the whole
/// width or height of the frame.
pub const RELATIVE_SCALE: u32 = 10000;

/// A rectangle given relative to the frame's size, each coordinate in
/// ten-thousandths of the frame's width (x, width) or height (y, height):
/// `x: 2613` is 26.13% of the width from the left edge.
#[derive(Debug, Clone, Copy, PartialEq, Eq)]
pub struct RelativeCropArea {
    pub x: u32,
    pub y: u32,
    pub width: u32,
    pub height: u32,
}

/// `fraction` ten-thousandths of `size` pixels, rounded down, saturating at
/// the largest `usize`.
pub open spec fn scale_to_pixels(fraction: u32, size: usize) -> usize {
    let v = fraction as int * size as int / RELATIVE_SCALE as int;
    if v > usize::MAX {
        usize::MAX
    } else {
        v as usize
    }
}

fn scale_exec(fraction: u32, size: usize) -> (r: usize)
    ensures
        r == scale_to_pixels(fraction, size),
{
    let f = fraction as u128;
    let z = size as u128;
    assert(f * z <= u128::MAX) by (nonlinear_arith)
        requires
            f <= u32::MAX,
            z <= u64::MAX,
    ;
    let product = f * z;
    let v = product / (RELATIVE_SCALE as u128);
    if v > (usize::MAX as u128) {
        usize::MAX
    } else {
        v as usize
    }
}

/// The default step of a crop adjustment: 25 ten-thousandths (0.25%) of
/// the frame.
pub const CROP_ADJUST_STEP: u32 = 25;

/// The smallest width and height a relative crop area is clamped to: one
/// default adjustment step.
pub const MIN_RELATIVE_CROP_SIZE: u32 = 25;

/// One adjustment of the crop area by the arrow keys held: with `resize`
/// (Shift) left/right make the width smaller/larger and up/down the height;
/// without it they move x and y.
#[derive(Debug, Clone, Copy, PartialEq, Eq, Structural)]
pub struct CropAdjust {
    pub resize: bool,
    pub left: bool,
    pub right: bool,
    pub up: bool,
    pub down: bool,
}

/// The relative crop area with corner (x, y) and size w x h brought into
/// the frame: the size is held within `25..=10000`, then the corner is
/// moved so that the rectangle ends inside the frame.
pub open spec fn clamp_parts(x: int, y: int, w: int, h: int) -> RelativeCropArea {
    let width = clamp_spec(w, MIN_RELATIVE_CROP_SIZE as int, RELATIVE_SCALE as int);
    let height = clamp_spec(h, MIN_RELATIVE_CROP_SIZE as int, RELATIVE_SCALE as int);
    RelativeCropArea {
        x: clamp_spec(x, 0, RELATIVE_SCALE - width) as u32,
        y: clamp_spec(y, 0, RELATIVE_SCALE - height) as u32,
        width: width as u32,
        height: height as u32,
    }
}

/// What `RelativeCropArea::clamp` makes of `c`.
pub open spec fn clamped_relative(c: RelativeCropArea) -> RelativeCropArea {
    clamp_parts(c.x as int, c.y as int, c.width as int, c.height as int)
}

/// `v` less `step` when `minus` is held, plus `step` when `plus` is held.
pub open spec fn stepped(v: u32, step: u32, minus: bool, plus: bool) -> int {
    v as int - (if minus {
        step as int
    } else {
        0
    }) + (if plus {
        step as int
    } else {
        0
    })
}

/// What `RelativeCropArea::adjust` makes of `c`: one step of `step` per key
/// held, on the size or on the corner, then clamped into the frame.
pub open spec fn adjusted(c: RelativeCropArea, step: u32, a: CropAdjust) -> RelativeCropArea {
    if a.resize {
        clamp_parts(
            c.x as int,
            c.y as int,
            stepped(c.width, step, a.left, a.right),
            stepped(c.height, step, a.up, a.down),
        )
    } else {
        clamp_parts(
            stepped(c.x, step, a.left, a.right),
            stepped(c.y, step, a.up, a.down),
            c.width as int,
            c.height as int,
        )
    }
}

/// A relative crop area lies inside the frame and is at least the
/// smallest size.
pub open spec fn relative_inside_frame(c: RelativeCropArea) -> bool {
    &&& MIN_RELATIVE_CROP_SIZE <= c.width <= RELATIVE_SCALE
    &&& MIN_RELATIVE_CROP_SIZE <= c.height <= RELATIVE_SCALE
    &&& c.x + c.width <= RELATIVE_SCALE
    &&& c.y + c.height <= RELATIVE_SCALE
}

fn clamp_i64(v: i64, lo: i64, hi: i64) -> (r: i64)
    requires
        lo <= hi,
    ensures
        r as int == clamp_spec(v as int, lo as int, hi as int),
{
    if v < lo {
        lo
    } else if v > hi {
        hi
    } else {
        v
    }
}

fn clamp_parts_exec(x: i64, y: i64, w: i64, h: i64) -> (c: RelativeCropArea)
    ensures
        c == clamp_parts(x as int, y as int, w as int, h as int),
{
    let width = clamp_i64(w, MIN_RELATIVE_CROP_SIZE as i64, RELATIVE_SCALE as i64);
    let height = clamp_i64(h, MIN_RELATIVE_CROP_SIZE as i64, RELATIVE_SCALE as i64);
    let cx = clamp_i64(x, 0, RELATIVE_SCALE as i64 - width);
    let cy = clamp_i64(y, 0, RELATIVE_SCALE as i64 - height);
    RelativeCropArea { x: cx as u32, y: cy as u32, width: width as u32, height: height as u32 }
}

fn stepped_exec(v: u32, step: u32, minus: bool, plus: bool) -> (r: i64)
    ensures
        r as int == stepped(v, step, minus, plus),
{
    let mut r = v as i64;
    if minus {
        r = r - step as i64;
    }
    if plus {
        r = r + step as i64;
    }
    r
}

/// A clamped relative crop area lies inside the frame.
pub proof fn lemma_clamp_parts_inside_frame(x: int, y: int, w: int, h: int)
    ensures
        relative_inside_frame(clamp_parts(x, y, w, h)),
{
}

/// An area inside the frame is left as it is by clamping; so clamping
/// twice is clamping once, and an adjusted area needs no further clamp.
pub proof fn lemma_clamp_keeps_inside(c: RelativeCropArea)
    requires
        relative_inside_frame(c),
    ensures
        clamped_relative(c) == c,
{
}

/// An adjustment leaves the area inside the frame, and clamping it again
/// changes nothing.
pub proof fn lemma_adjusted_inside_frame(c: RelativeCropArea, step: u32, a: CropAdjust)
    ensures
        relative_inside_frame(adjusted(c, step, a)),
        clamped_relative(adjusted(c, step, a)) == adjusted(c, step, a),
{
}

/// Moving an area that is inside the frame keeps its size.
pub proof fn lemma_move_keeps_size(c: RelativeCropArea, step: u32, a: CropAdjust)
    requires
        relative_inside_frame(c),
        !a.resize,
    ensures
        adjusted(c, step, a).width == c.width,
        adjusted(c, step, a).height == c.height,
{
}

/// Opposite keys held together cancel: an area inside the frame is left
/// as it is.
pub proof fn lemma_opposite_keys_cancel(c: RelativeCropArea, step: u32, resize: bool)
    requires
        relative_inside_frame(c),
    ensures
        adjusted(c, step, CropAdjust { resize, left: true, right: true, up: true, down: true }) == c,
{
}

/// A step right and then a step left bring an area back, as long as the
/// step right stays inside the frame.
pub proof fn lemma_step_right_then_left(c: RelativeCropArea, step: u32)
    requires
        relative_inside_frame(c),
        c.x + c.width + step <= RELATIVE_SCALE,
    ensures
        adjusted(
            adjusted(c, step, CropAdjust { resize: false, left: false, right: true, up: false, down: false }),
            step,
            CropAdjust { resize: false, left: true, right: false, up: false, down: false },
        ) == c,
{
}

/// The adjustment for one arrow key held alone.
pub open spec fn one_key(resize: bool, left: bool, right: bool, up: bool, down: bool) -> CropAdjust {
    CropAdjust { resize, left, right, up, down }
}

/// Each arrow key moves the area one step its own way, where the frame
/// leaves room: Left and Right move x down and up, Up and Down move y down
/// and up (the frame's y grows downwards), and nothing else changes. With
/// Shift, Left and Right make the width smaller and larger, Up and Down the
/// height, and the corner stays.
pub proof fn lemma_arrow_keys_step_their_way(c: RelativeCropArea, step: u32)
    requires
        relative_inside_frame(c),
    ensures
        c.y + c.height + step <= RELATIVE_SCALE ==> adjusted(
            c,
            step,
            one_key(false, false, false, false, true),
        ) == (RelativeCropArea { y: (c.y + step) as u32, ..c }),
        c.y >= step ==> adjusted(c, step, one_key(false, false, false, true, false)) == (
        RelativeCropArea { y: (c.y - step) as u32, ..c }),
        c.x + c.width + step <= RELATIVE_SCALE ==> adjusted(
            c,
            step,
            one_key(false, false, true, false, false),
        ) == (RelativeCropArea { x: (c.x + step) as u32, ..c }),
        c.x >= step ==> adjusted(c, step, one_key(false, true, false, false, false)) == (
        RelativeCropArea { x: (c.x - step) as u32, ..c }),
        c.x + c.width + step <= RELATIVE_SCALE ==> adjusted(
            c,
            step,
            one_key(true, false, true, false, false),
        ) == (RelativeCropArea { width: (c.width + step) as u32, ..c }),
        c.y + c.height + step <= RELATIVE_SCALE ==> adjusted(
            c,
            step,
            one_key(true, false, false, false, true),
        ) == (RelativeCropArea { height: (c.height + step) as u32, ..c }),
        c.width >= MIN_RELATIVE_CROP_SIZE + step ==> adjusted(
            c,
            step,
            one_key(true, true, false, false, false),
        ) == (RelativeCropArea { width: (c.width - step) as u32, ..c }),
        c.height >= MIN_RELATIVE_CROP_SIZE + step ==> adjusted(
            c,
            step,
            one_key(true, false, false, true, false),
        ) == (RelativeCropArea { height: (c.height - step) as u32, ..c }),
{
}

/// Clamping moves an area no further than it must: a width or height
/// within range is kept, and a corner is kept where the area fits,
/// otherwise held so that the area ends at the frame's far edge (or
/// starts at 0).
pub proof fn lemma_relative_clamp_moves_least(c: RelativeCropArea)
    ensures
        MIN_RELATIVE_CROP_SIZE <= c.width <= RELATIVE_SCALE ==> clamped_relative(c).width == c.width,
        MIN_RELATIVE_CROP_SIZE <= c.height <= RELATIVE_SCALE ==> clamped_relative(c).height
            == c.height,
        c.x + clamped_relative(c).width <= RELATIVE_SCALE ==> clamped_relative(c).x == c.x,
        c.x + clamped_relative(c).width > RELATIVE_SCALE ==> clamped_relative(c).x + clamped_relative(
            c,
        ).width == RELATIVE_SCALE,
        c.y + clamped_relative(c).height <= RELATIVE_SCALE ==> clamped_relative(c).y == c.y,
        c.y + clamped_relative(c).height > RELATIVE_SCALE ==> clamped_relative(c).y + clamped_relative(
            c,
        ).height == RELATIVE_SCALE,
{
}

/// The default relative crop area is the default crop area of a 1280x720
/// frame.
pub proof fn lemma_default_relative_is_default_720p()
    ensures
        (RelativeCropArea { x: 4063, y: 1250, width: 1875, height: 834 }).to_pixels_spec(1280, 720)
            == (CropArea { x: 520, y: 90, width: 240, height: 60 }),
{
    assert(4063 * 1280 / 10000 == 520int);
    assert(1250 * 720 / 10000 == 90int);
    assert(1875 * 1280 / 10000 == 240int);
    assert(834 * 720 / 10000 == 60int);
}

impl RelativeCropArea {
    /// The area in pixels of a `frame_width` x `frame_height` frame.
    pub open spec fn to_pixels_spec(&self, frame_width: usize, frame_height: usize) -> CropArea {
        CropArea {
            x: scale_to_pixels(self.x, frame_width),
            y: scale_to_pixels(self.y, frame_height),
            width: scale_to_pixels(self.width, frame_width),
            height: scale_to_pixels(self.height, frame_height),
        }
    }

    /// The default crop area: that of a 1280x720 frame
    /// (`CropArea::default_720p`) relative to its size.
    pub fn default_relative() -> (c: Self)
        ensures
            c == (RelativeCropArea { x: 4063, y: 1250, width: 1875, height: 834 }),
    {
        RelativeCropArea { x: 4063, y: 1250, width: 1875, height: 834 }
    }

    /// Keeps the area inside the frame: width and height are held within
    /// `25..=10000`, then x and y so that the rectangle ends inside.
    pub fn clamp(&mut self)
        ensures
            *final(self) == clamped_relative(*old(self)),
    {
        *self = clamp_parts_exec(self.x as i64, self.y as i64, self.width as i64, self.height as i64);
    }

    /// Applies one adjustment of `step` ten-thousandths per arrow key held
    /// (see `CropAdjust`), then clamps the area into the frame.
    pub fn adjust(&mut self, step: u32, a: CropAdjust)
        ensures
            *final(self) == adjusted(*old(self), step, a),
    {
        if a.resize {
            let w = stepped_exec(self.width, step, a.left, a.right);
            let h = stepped_exec(self.height, step, a.up, a.down);
            *self = clamp_parts_exec(self.x as i64, self.y as i64, w, h);
        } else {
            let x = stepped_exec(self.x, step, a.left, a.right);
            let y = stepped_exec(self.y, step, a.up, a.down);
            *self = clamp_parts_exec(x, y, self.width as i64, self.height as i64);
        }
    }

    /// The area in pixels of a `frame_width` x `frame_height` frame.
    pub fn to_pixels(&self, frame_width: usize, frame_height: usize) -> (c: PixelCropArea)
        ensures
            c == self.to_pixels_spec(frame_width, frame_height),
            c.x == scale_to_pixels(self.x, frame_width),
            c.y == scale_to_pixels(self.y, frame_height),
            c.width == scale_to_pixels(self.width, frame_width),
            c.height == scale_to_pixels(self.height, frame_height),
    {
        CropArea {
            x: scale_exec(self.x, frame_width),
            y: scale_exec(self.y, frame_height),
            width: scale_exec(self.width, frame_width),
            height: scale_exec(self.height, frame_height),
        }
    }
}

/// Scaling to pixels rounds down: `fraction` ten-thousandths of `size`
/// pixels is the largest whole number of pixels not above it (within
/// `usize`). The whole frame (10000) is `size` pixels, none (0) is none,
/// and a larger fraction never gives fewer pixels.
pub proof fn lemma_scale_to_pixels_rounds_down(fraction: u32, size: usize, fraction2: u32)
    requires
        fraction <= RELATIVE_SCALE,
    ensures
        scale_to_pixels(fraction, size) * RELATIVE_SCALE <= fraction * size,
        fraction * size < (scale_to_pixels(fraction, size) + 1) * RELATIVE_SCALE,
        scale_to_pixels(RELATIVE_SCALE, size) == size,
        scale_to_pixels(0, size) == 0,
        fraction <= fraction2 ==> scale_to_pixels(fraction, size) <= scale_to_pixels(fraction2, size),
{
    let n = fraction as int * size as int;
    assert(0 <= n) by (nonlinear_arith)
        requires
            n == fraction as int * size as int,
    ;
    assert(n <= RELATIVE_SCALE * size) by (nonlinear_arith)
        requires
            n == fraction as int * size as int,
            fraction <= RELATIVE_SCALE,
            0 <= size,
    ;
    vstd::arithmetic::div_mod::lemma_fundamental_div_mod(n, RELATIVE_SCALE as int);
    vstd::arithmetic::div_mod::lemma_mod_bound(n, RELATIVE_SCALE as int);
    vstd::arithmetic::div_mod::lemma_div_is_ordered(n, RELATIVE_SCALE * size, RELATIVE_SCALE as int);
    vstd::arithmetic::div_mod::lemma_div_multiples_vanish(size as int, RELATIVE_SCALE as int);
    assert(RELATIVE_SCALE as int * size as int == size as int * RELATIVE_SCALE as int) by (nonlinear_arith);
    if fraction <= fraction2 {
        assert(n <= fraction2 as int * size as int) by (nonlinear_arith)
            requires
                n == fraction as int * size as int,
                fraction <= fraction2,
                0 <= size,
        ;
        vstd::arithmetic::div_mod::lemma_div_is_ordered(
            n,
            fraction2 as int * size as int,
            RELATIVE_SCALE as int,
        );
    }
}

} // verus!
