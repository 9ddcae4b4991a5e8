//! The ▶ button to the right of the phase text, which advances the phase
//! by hand.

use vstd::prelude::*;

use std::sync::Arc;
use std::sync::atomic::{AtomicBool, Ordering};

use crate::video::buffer::{rect_covers, rect_within, PixelBuffer};
use crate::video::display::{draw_triangle, triangle_covers};

verus! {

/// The button's width.
pub const WIDTH: usize = 12;

/// The button's height.
pub const HEIGHT: usize = 16;

/// The gap between the phase text and the button.
pub const TEXT_GAP: usize = 8;

/// The button's colour.
pub const COLOR: u32 = 0x00C8_00FF;

/// A button's hit rectangle (x, y, width, height), `None` while hidden.
pub type ButtonRect = Option<(usize, usize, usize, usize)>;

/// The mouse at `pos` is inside the shown button `rect`.
pub open spec fn button_hit(rect: ButtonRect, pos: Option<(usize, usize)>) -> bool {
    match (rect, pos) {
        (Some((x, y, w, h)), Some((mx, my))) => x <= mx < x + w && y <= my < y + h,
        _ => false,
    }
}

/// A rectangle whose far edges fit in `usize`.
pub open spec fn rect_fits(rect: ButtonRect) -> bool {
    match rect {
        Some((x, y, w, h)) => x + w <= usize::MAX && y + h <= usize::MAX,
        None => true,
    }
}

/// One mouse reading of a button: (pressed afterwards, click). A click is
/// the moment the left button goes down over the button; holding it down
/// gives no further click, and releasing it ends the press.
pub open spec fn press_step(
    pressed: bool,
    rect: ButtonRect,
    mouse_down: bool,
    pos: Option<(usize, usize)>,
) -> (bool, bool) {
    if !mouse_down {
        (false, false)
    } else if pressed {
        (true, false)
    } else if button_hit(rect, pos) {
        (true, true)
    } else {
        (false, false)
    }
}

/// Holding the mouse button down after a click gives no second click,
/// wherever the mouse moves.
pub proof fn lemma_one_click_per_press(
    pressed: bool,
    rect: ButtonRect,
    pos1: Option<(usize, usize)>,
    pos2: Option<(usize, usize)>,
)
    ensures
        press_step(pressed, rect, true, pos1).1 ==> !press_step(
            press_step(pressed, rect, true, pos1).0,
            rect,
            true,
            pos2,
        ).1,
{
}

/// The press-edge test shared by the panel buttons: whether this reading
/// clicks, updating `pressed`.
pub fn button_press(
    pressed: &mut bool,
    rect: ButtonRect,
    mouse_down: bool,
    mouse_pos: Option<(usize, usize)>,
) -> (clicked: bool)
    requires
        rect_fits(rect),
    ensures
        (*final(pressed), clicked) == press_step(*old(pressed), rect, mouse_down, mouse_pos),
{
    if !mouse_down {
        *pressed = false;
        return false;
    }
    if *pressed {
        return false;
    }
    let (button_x, button_y, button_w, button_h) = match rect {
        Some(r) => r,
        None => return false,
    };
    let (mouse_x, mouse_y) = match mouse_pos {
        Some(p) => p,
        None => return false,
    };
    if button_x <= mouse_x && mouse_x < button_x + button_w && button_y <= mouse_y && mouse_y
        < button_y + button_h {
        *pressed = true;
        return true;
    }
    false
}

/// The ▶ button: where it is drawn, whether the mouse is held on it, and
/// the flag through which a click asks for a manual phase advance.
pub struct PhaseButton {
    rect: ButtonRect,
    pressed: bool,
    manual_phase_advance: Arc<AtomicBool>,
}

impl PhaseButton {
    /// Where the button is, `None` while hidden.
    pub closed spec fn rect(&self) -> ButtonRect {
        self.rect
    }

    /// Whether the mouse button is held since a click on it.
    pub closed spec fn pressed(&self) -> bool {
        self.pressed
    }

    /// The flag set when the button is clicked.
    pub closed spec fn flag(&self) -> Arc<AtomicBool> {
        self.manual_phase_advance
    }

    #[verifier::type_invariant]
    spec fn rect_in_range(&self) -> bool {
        rect_fits(self.rect)
    }

    /// A hidden, unpressed button setting `manual_phase_advance` on click.
    pub fn new(manual_phase_advance: Arc<AtomicBool>) -> (b: Self)
        ensures
            b.rect() is None,
            !b.pressed(),
            b.flag() == manual_phase_advance,
    {
        PhaseButton { rect: None, pressed: false, manual_phase_advance }
    }

    /// Takes one reading of the mouse (left button down, position in window
    /// pixels if inside the window). A click, the moment the button goes
    /// down over the ▶, sets the manual-advance flag; the result says
    /// whether it did.
    pub fn handle_mouse(&mut self, mouse_down: bool, mouse_pos: Option<(usize, usize)>) -> (clicked:
        bool)
        ensures
            (final(self).pressed(), clicked) == press_step(
                old(self).pressed(),
                old(self).rect(),
                mouse_down,
                mouse_pos,
            ),
            final(self).rect() == old(self).rect(),
            final(self).flag() == old(self).flag(),
    {
        proof {
            use_type_invariant(&*self);
        }
        let mut pressed = self.pressed;
        let clicked = button_press(&mut pressed, self.rect, mouse_down, mouse_pos);
        self.pressed = pressed;
        if clicked {
            self.manual_phase_advance.store(true, Ordering::Relaxed);
        }
        clicked
    }

    /// Places the button to the right of phase text drawn at
    /// (text_x, text_y) with size `text_size`, vertically centred on it,
    /// and draws it; no text (width 0) hides the button.
    pub fn update_for_text(
        &mut self,
        buffer: &mut PixelBuffer,
        text_x: usize,
        text_y: usize,
        text_size: (usize, usize),
    )
        requires
            text_size.0 != 0 ==> text_x + text_size.0 + TEXT_GAP + WIDTH <= usize::MAX,
            text_size.0 != 0 ==> text_y + text_size.1 + HEIGHT <= usize::MAX,
            text_size.0 != 0 ==> rect_within(
                old(buffer).pixels@.len(),
                old(buffer).width as nat,
                old(buffer).height as nat,
                text_x + text_size.0 + TEXT_GAP,
                button_top(text_y, text_size.1),
                WIDTH as int,
                HEIGHT as int,
            ),
        ensures
            final(self).pressed() == old(self).pressed(),
            final(self).flag() == old(self).flag(),
            text_size.0 == 0 ==> final(self).rect() is None && final(buffer).pixels@ == old(buffer).pixels@ && final(buffer).width == old(buffer).width && final(buffer).height == old(buffer).height,
            text_size.0 != 0 ==> {
                let bx = (text_x + text_size.0 + TEXT_GAP) as usize;
                let by = button_top(text_y, text_size.1) as usize;
                &&& final(self).rect() == Some((bx, by, WIDTH, HEIGHT))
                &&& final(buffer).width == old(buffer).width
                &&& final(buffer).height == old(buffer).height
                &&& final(buffer).pixels@.len() == old(buffer).pixels@.len()
                &&& forall|i: int|
                    0 <= i < old(buffer).pixels@.len() ==> #[trigger] final(buffer).pixels@[i]
                        == if triangle_covers(
                        old(buffer).width as nat,
                        old(buffer).height as nat,
                        bx as int,
                        by as int,
                        WIDTH as int,
                        HEIGHT as int,
                        i,
                    ) {
                        COLOR
                    } else {
                        old(buffer).pixels@[i]
                    }
            },
    {
        if text_size.0 == 0 {
            self.rect = None;
            return;
        }
        let button_x = text_x + text_size.0 + TEXT_GAP;
        let button_y = text_y + text_size.1.saturating_sub(HEIGHT) / 2;
        draw_triangle(buffer, button_x, button_y, WIDTH, HEIGHT, COLOR);
        self.rect = Some((button_x, button_y, WIDTH, HEIGHT));
    }

    /// Paints the button's area with `color` (before the phase text is
    /// drawn again); a hidden button leaves the buffer as it is.
    pub fn clear(&self, buffer: &mut PixelBuffer, color: u32)
        requires
            self.rect() matches Some((x, y, w, h)) ==> rect_within(
                old(buffer).pixels@.len(),
                old(buffer).width as nat,
                old(buffer).height as nat,
                x as int,
                y as int,
                w as int,
                h as int,
            ),
        ensures
            self.rect() is None ==> final(buffer).pixels@ == old(buffer).pixels@ && final(buffer).width == old(buffer).width && final(buffer).height == old(buffer).height,
            self.rect() matches Some((x, y, w, h)) ==> {
                &&& final(buffer).width == old(buffer).width
                &&& final(buffer).height == old(buffer).height
                &&& final(buffer).pixels@.len() == old(buffer).pixels@.len()
                &&& forall|i: int|
                    0 <= i < old(buffer).pixels@.len() ==> #[trigger] final(buffer).pixels@[i]
                        == if rect_covers(
                        old(buffer).width as nat,
                        old(buffer).height as nat,
                        x as int,
                        y as int,
                        w as int,
                        h as int,
                        i,
                    ) {
                        color
                    } else {
                        old(buffer).pixels@[i]
                    }
            },
    {
        if let Some((x, y, w, h)) = self.rect {
            buffer.clear_rect(x, y, w, h, color);
        }
    }
}

/// Clearing the button with the colour that was under it undoes drawing
/// it: if every pixel of the button's rectangle at (x, y) had colour `c`
/// before the ▶ was drawn there (`update_for_text`), painting that
/// rectangle with `c` (`clear`) gives back every pixel as it was.
pub proof fn lemma_clear_undoes_draw(pixels: Seq<u32>, width: nat, height: nat, x: int, y: int, c: u32)
    requires
        forall|i: int|
            0 <= i < pixels.len() && #[trigger] rect_covers(width, height, x, y, WIDTH as int, HEIGHT as int, i)
                ==> pixels[i] == c,
    ensures
        forall|i: int|
            0 <= i < pixels.len() ==> (if #[trigger] rect_covers(
                width,
                height,
                x,
                y,
                WIDTH as int,
                HEIGHT as int,
                i,
            ) {
                c
            } else if triangle_covers(width, height, x, y, WIDTH as int, HEIGHT as int, i) {
                COLOR
            } else {
                pixels[i]
            }) == pixels[i],
{
}

/// The top of the button next to text at `text_y` that is `text_height`
/// high: centred on the text when the text is taller than the button.
pub open spec fn button_top(text_y: usize, text_height: usize) -> int {
    text_y + (if text_height >= HEIGHT {
        text_height - HEIGHT
    } else {
        0
    }) / 2
}

/// Draws the ▶ (12 x 16, in the button colour) with its bounding box's
/// top-left corner at (x, y).
pub fn draw_button(buffer: &mut PixelBuffer, x: usize, y: usize)
    requires
        x + WIDTH <= usize::MAX,
        y + HEIGHT <= usize::MAX,
        rect_within(
            old(buffer).pixels@.len(),
            old(buffer).width as nat,
            old(buffer).height as nat,
            x as int,
            y as int,
            WIDTH as int,
            HEIGHT as int,
        ),
    ensures
        final(buffer).width == old(buffer).width,
        final(buffer).height == old(buffer).height,
        final(buffer).pixels@.len() == old(buffer).pixels@.len(),
        forall|i: int|
            0 <= i < old(buffer).pixels@.len() ==> #[trigger] final(buffer).pixels@[i] == if triangle_covers(
                old(buffer).width as nat,
                old(buffer).height as nat,
                x as int,
                y as int,
                WIDTH as int,
                HEIGHT as int,
                i,
            ) {
                COLOR
            } else {
                old(buffer).pixels@[i]
            },
{
    draw_triangle(buffer, x, y, WIDTH, HEIGHT, COLOR);
}

/// A click happens only at the moment the mouse button goes down over the
/// shown button while it was not already held; releasing the mouse
/// button always ends the press.
pub proof fn lemma_click_only_on_press_over_button(
    pressed: bool,
    rect: ButtonRect,
    mouse_down: bool,
    pos: Option<(usize, usize)>,
)
    ensures
        press_step(pressed, rect, mouse_down, pos).1 <==> (mouse_down && !pressed && button_hit(
            rect,
            pos,
        )),
        !mouse_down ==> !press_step(pressed, rect, mouse_down, pos).0,
        rect is None ==> !press_step(pressed, rect, mouse_down, pos).1,
        (rect matches Some((x, y, w, h)) && pos matches Some((mx, my)) && (mx < x || mx >= x + w
            || my < y || my >= y + h)) ==> !press_step(pressed, rect, mouse_down, pos).1,
{
}

} // verus!
