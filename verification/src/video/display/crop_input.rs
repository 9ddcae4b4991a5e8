//! Keyboard control of the crop area: arrow keys move it, Shift + arrow
//! keys resize it, and D shows or hides its outline (debug builds).

use vstd::prelude::*;

use std::time::{Duration, Instant};

use crate::video::crop::{
    adjusted, lemma_arrow_keys_step_their_way, relative_inside_frame, CropAdjust,
    RelativeCropArea, CROP_ADJUST_STEP, RELATIVE_SCALE,
};

verus! {

/// std's monotonic clock reading.
#[verifier::external_type_specification]
#[verifier::external_body]
pub struct ExInstant(Instant);

/// std's `Instant::now`; the time is not stated.
#[verifier::external_body]
fn instant_now() -> Instant {
    Instant::now()
}

/// std's `Instant::elapsed`; the time is not stated.
#[verifier::external_body]
fn instant_elapsed(t: &Instant) -> Duration {
    t.elapsed()
}

/// std's `Duration::as_millis`; the value is not stated.
#[verifier::external_body]
fn duration_as_millis(d: &Duration) -> u128 {
    d.as_millis()
}

/// The least time between two crop adjustments, in milliseconds.
pub const INPUT_INTERVAL_MILLIS: u128 = 50;

/// Enough time has passed since the last adjustment: `elapsed_millis`
/// reaches `INPUT_INTERVAL_MILLIS`.
pub open spec fn interval_passed(elapsed_millis: u128) -> bool {
    elapsed_millis >= INPUT_INTERVAL_MILLIS
}

/// The keys read in one frame.
#[derive(Debug, Clone, Copy, PartialEq, Eq, Structural)]
pub struct CropKeys {
    /// D was just pressed (only read in debug builds).
    pub debug_toggle: bool,
    pub shift: bool,
    pub left: bool,
    pub right: bool,
    pub up: bool,
    pub down: bool,
}

/// What to do with the crop area after one reading of the keys.
#[derive(Debug, Clone, Copy, PartialEq, Eq, Structural)]
pub enum CropKeyAction {
    /// The outline was shown or hidden; the crop area is left alone.
    DebugFrameToggled,
    /// Nothing to do.
    Unchanged,
    /// Adjust the crop area by one step per arrow key held
    /// (`RelativeCropArea::adjust`).
    Adjust(CropAdjust),
}

/// The adjustment that the arrow keys of `keys` ask for (resizing with
/// Shift).
pub open spec fn arrows_of(keys: CropKeys) -> CropAdjust {
    CropAdjust { resize: keys.shift, left: keys.left, right: keys.right, up: keys.up, down: keys.down }
}

/// An arrow key is held.
pub open spec fn any_arrow(keys: CropKeys) -> bool {
    keys.left || keys.right || keys.up || keys.down
}

/// The decision for one reading of the keys: D toggles the outline and
/// nothing else; otherwise, once enough time has passed since the last
/// adjustment, any arrow key held asks for an adjustment (resizing with
/// Shift).
pub open spec fn crop_key_action(keys: CropKeys, passed: bool) -> CropKeyAction {
    if keys.debug_toggle {
        CropKeyAction::DebugFrameToggled
    } else if !passed {
        CropKeyAction::Unchanged
    } else if any_arrow(keys) {
        CropKeyAction::Adjust(arrows_of(keys))
    } else {
        CropKeyAction::Unchanged
    }
}

/// The decision of the panel window for one reading of the keys: D only
/// shows or hides the outline (the arrows are still read); once enough
/// time has passed since the last adjustment, any arrow key held asks for
/// an adjustment.
pub open spec fn panel_key_adjust(keys: CropKeys, passed: bool) -> Option<CropAdjust> {
    if any_arrow(keys) && passed {
        Some(arrows_of(keys))
    } else {
        None
    }
}

fn arrows_exec(keys: CropKeys) -> (a: CropAdjust)
    ensures
        a == arrows_of(keys),
{
    CropAdjust { resize: keys.shift, left: keys.left, right: keys.right, up: keys.up, down: keys.down }
}

/// The keyboard controller of the crop area.
pub struct CropInputController {
    last_input_time: Instant,
    show_debug_frame: bool,
}

impl CropInputController {
    /// Whether the crop area's outline is shown over the video.
    pub closed spec fn debug_frame_shown(&self) -> bool {
        self.show_debug_frame
    }

    /// A controller whose last adjustment is now; the outline starts shown
    /// or hidden as given (shown in debug builds).
    pub fn new(show_debug_frame: bool) -> (c: Self)
        ensures
            c.debug_frame_shown() == show_debug_frame,
    {
        CropInputController { last_input_time: instant_now(), show_debug_frame }
    }

    /// Whether the crop area's outline is shown over the video.
    pub fn show_debug_frame(&self) -> (shown: bool)
        ensures
            shown == self.debug_frame_shown(),
    {
        self.show_debug_frame
    }

    /// Decides on one reading of the keys, given the milliseconds since the
    /// last adjustment: the interval has passed once they reach
    /// `INPUT_INTERVAL_MILLIS`. Toggles the outline on D.
    pub fn decide(&mut self, keys: CropKeys, elapsed_millis: u128) -> (action: CropKeyAction)
        ensures
            action == crop_key_action(keys, interval_passed(elapsed_millis)),
            final(self).debug_frame_shown() == if keys.debug_toggle {
                !old(self).debug_frame_shown()
            } else {
                old(self).debug_frame_shown()
            },
    {
        if keys.debug_toggle {
            self.show_debug_frame = !self.show_debug_frame;
            return CropKeyAction::DebugFrameToggled;
        }
        if elapsed_millis < INPUT_INTERVAL_MILLIS {
            return CropKeyAction::Unchanged;
        }
        if keys.left || keys.right || keys.up || keys.down {
            CropKeyAction::Adjust(arrows_exec(keys))
        } else {
            CropKeyAction::Unchanged
        }
    }

    /// Reads the clock and decides on one reading of the keys (see
    /// `decide`); an adjustment moves or resizes `crop` by the default step
    /// and restarts the interval.
    pub fn handle(&mut self, keys: CropKeys, crop: &mut RelativeCropArea) -> (action: CropKeyAction)
        ensures
            exists|elapsed_millis: u128|
                action == crop_key_action(keys, #[trigger] interval_passed(elapsed_millis)),
            *final(crop) == match action {
                CropKeyAction::Adjust(a) => adjusted(*old(crop), CROP_ADJUST_STEP, a),
                _ => *old(crop),
            },
            final(self).debug_frame_shown() == if keys.debug_toggle {
                !old(self).debug_frame_shown()
            } else {
                old(self).debug_frame_shown()
            },
    {
        let elapsed_millis = if keys.debug_toggle {
            0
        } else {
            let elapsed = instant_elapsed(&self.last_input_time);
            duration_as_millis(&elapsed)
        };
        let action = self.decide(keys, elapsed_millis);
        if let CropKeyAction::Adjust(a) = action {
            crop.adjust(CROP_ADJUST_STEP, a);
            self.last_input_time = instant_now();
        }
        action
    }

    /// The panel window's decision on one reading of the keys, given the
    /// milliseconds since the last adjustment (the interval has passed once
    /// they reach `INPUT_INTERVAL_MILLIS`): D shows or hides the outline,
    /// and the arrows are read as well.
    pub fn decide_panel(&mut self, keys: CropKeys, elapsed_millis: u128) -> (adjust: Option<CropAdjust>)
        ensures
            adjust == panel_key_adjust(keys, interval_passed(elapsed_millis)),
            final(self).debug_frame_shown() == if keys.debug_toggle {
                !old(self).debug_frame_shown()
            } else {
                old(self).debug_frame_shown()
            },
    {
        if keys.debug_toggle {
            self.show_debug_frame = !self.show_debug_frame;
        }
        if !(keys.left || keys.right || keys.up || keys.down) {
            return None;
        }
        if elapsed_millis < INPUT_INTERVAL_MILLIS {
            return None;
        }
        Some(arrows_exec(keys))
    }

    /// Reads the clock and makes the panel window's decision on one reading
    /// of the keys (see `decide_panel`); an adjustment moves or resizes
    /// `crop` by `step` ten-thousandths and restarts the interval.
    pub fn handle_panel(&mut self, keys: CropKeys, crop: &mut RelativeCropArea, step: u32) -> (adjust:
        Option<CropAdjust>)
        ensures
            exists|elapsed_millis: u128|
                adjust == panel_key_adjust(keys, #[trigger] interval_passed(elapsed_millis)),
            !any_arrow(keys) ==> adjust is None,
            *final(crop) == match adjust {
                Some(a) => adjusted(*old(crop), step, a),
                None => *old(crop),
            },
            final(self).debug_frame_shown() == if keys.debug_toggle {
                !old(self).debug_frame_shown()
            } else {
                old(self).debug_frame_shown()
            },
    {
        let elapsed_millis = if keys.left || keys.right || keys.up || keys.down {
            let elapsed = instant_elapsed(&self.last_input_time);
            duration_as_millis(&elapsed)
        } else {
            0
        };
        let adjust = self.decide_panel(keys, elapsed_millis);
        if let Some(a) = adjust {
            crop.adjust(step, a);
            self.last_input_time = instant_now();
        }
        adjust
    }
}

/// The keys read with only the arrow keys given held (no D).
pub open spec fn arrows_held(shift: bool, left: bool, right: bool, up: bool, down: bool) -> CropKeys {
    CropKeys { debug_toggle: false, shift, left, right, up, down }
}

/// What the keys do to an area inside the frame once the interval has
/// passed, where the frame leaves room: Left alone moves it one step left,
/// Right one step right, Up one step up and Down one step down; with Shift,
/// Right widens it and Down makes it taller. D never moves the area, and
/// before the interval has passed nothing does.
pub proof fn lemma_keys_move_the_area(c: RelativeCropArea, step: u32, keys: CropKeys)
    requires
        relative_inside_frame(c),
    ensures
        c.x >= step ==> (crop_key_action(arrows_held(false, true, false, false, false), true)
            matches CropKeyAction::Adjust(a) && adjusted(c, step, a) == (RelativeCropArea {
            x: (c.x - step) as u32,
            ..c
        })),
        c.x + c.width + step <= RELATIVE_SCALE ==> (crop_key_action(
            arrows_held(false, false, true, false, false),
            true,
        ) matches CropKeyAction::Adjust(a) && adjusted(c, step, a) == (RelativeCropArea {
            x: (c.x + step) as u32,
            ..c
        })),
        c.y >= step ==> (crop_key_action(arrows_held(false, false, false, true, false), true)
            matches CropKeyAction::Adjust(a) && adjusted(c, step, a) == (RelativeCropArea {
            y: (c.y - step) as u32,
            ..c
        })),
        c.y + c.height + step <= RELATIVE_SCALE ==> (crop_key_action(
            arrows_held(false, false, false, false, true),
            true,
        ) matches CropKeyAction::Adjust(a) && adjusted(c, step, a) == (RelativeCropArea {
            y: (c.y + step) as u32,
            ..c
        })),
        c.x + c.width + step <= RELATIVE_SCALE ==> (crop_key_action(
            arrows_held(true, false, true, false, false),
            true,
        ) matches CropKeyAction::Adjust(a) && adjusted(c, step, a) == (RelativeCropArea {
            width: (c.width + step) as u32,
            ..c
        })),
        c.y + c.height + step <= RELATIVE_SCALE ==> (panel_key_adjust(
            arrows_held(true, false, false, false, true),
            true,
        ) matches Some(a) && adjusted(c, step, a) == (RelativeCropArea {
            height: (c.height + step) as u32,
            ..c
        })),
        keys.debug_toggle ==> crop_key_action(keys, true) == CropKeyAction::DebugFrameToggled,
        !keys.debug_toggle ==> crop_key_action(keys, false) == CropKeyAction::Unchanged,
        panel_key_adjust(keys, false) is None,
        !any_arrow(keys) ==> panel_key_adjust(keys, true) is None,
{
    lemma_arrow_keys_step_their_way(c, step);
}

} // verus!
