use std::sync::Arc;

use switch_capture::video::crop::{CropAdjust, CropArea, RelativeCropArea, CROP_ADJUST_STEP};
use switch_capture::video::display::crop_input::{CropInputController, CropKeyAction, CropKeys};
use switch_capture::video::pipeline::{CaptureService, FrameBuffer, VideoSource};

struct CountingSource {
    next: u32,
}

impl VideoSource for CountingSource {
    fn capture_frame(&mut self) -> Result<FrameBuffer, anyhow::Error> {
        self.next += 1;
        if self.next == 3 {
            return Err(anyhow::Error::msg("dropped frame"));
        }
        Ok(Arc::new(vec![self.next; 4]))
    }
}

fn service(interval: u32) -> CaptureService {
    CaptureService::new(Box::new(CountingSource { next: 0 }), interval)
}

#[test]
fn every_interval_th_frame_goes_to_analysis() {
    let s = service(3);
    assert_eq!(s.ml_sample_interval_frames(), 3);
    let mut since = 0;
    let mut sampled = Vec::new();
    for frame in 1..=9u32 {
        let (next, take) = s.next_ml_sample(since);
        since = next;
        if take {
            sampled.push(frame);
        }
    }
    assert_eq!(sampled, vec![3, 6, 9]);
    assert_eq!(since, 0);
}

#[test]
fn interval_zero_samples_every_frame() {
    let s = service(0);
    assert_eq!(s.ml_sample_interval_frames(), 1);
    assert_eq!(s.next_ml_sample(0), (0, true));
}

#[test]
fn frames_and_errors_come_from_the_source() {
    let mut s = service(2);
    assert_eq!(*s.capture_frame().unwrap(), vec![1u32; 4]);
    assert_eq!(*s.capture_frame().unwrap(), vec![2u32; 4]);
    assert!(s.capture_frame().is_err());
    assert_eq!(*s.capture_frame().unwrap(), vec![4u32; 4]);
    assert_eq!(s.ml_sample_interval_frames(), 2);
}

fn keys(debug_toggle: bool, shift: bool, left: bool, right: bool, up: bool, down: bool) -> CropKeys {
    CropKeys { debug_toggle, shift, left, right, up, down }
}

#[test]
fn debug_key_toggles_the_outline_only() {
    let mut c = CropInputController::new(true);
    assert!(c.show_debug_frame());
    let action = c.decide(keys(true, false, true, false, false, false), 500);
    assert_eq!(action, CropKeyAction::DebugFrameToggled);
    assert!(!c.show_debug_frame());
    assert_eq!(c.decide(keys(true, false, false, false, false, false), 0), CropKeyAction::DebugFrameToggled);
    assert!(c.show_debug_frame());
}

#[test]
fn arrows_adjust_once_the_interval_passed() {
    let mut c = CropInputController::new(false);
    assert_eq!(c.decide(keys(false, false, true, false, false, false), 49), CropKeyAction::Unchanged);
    assert_eq!(
        c.decide(keys(false, true, false, true, false, true), 50),
        CropKeyAction::Adjust(CropAdjust { resize: true, left: false, right: true, up: false, down: true })
    );
    assert_eq!(c.decide(keys(false, true, false, false, false, false), 1000), CropKeyAction::Unchanged);
    assert!(!c.show_debug_frame());
}

#[test]
fn first_reading_right_after_creation_waits_for_the_interval() {
    let mut c = CropInputController::new(false);
    let mut crop = RelativeCropArea::default_relative();
    let left = keys(false, false, true, false, false, false);
    // Less than 50 ms after creation: the arrow is not yet applied.
    assert_eq!(c.handle(left, &mut crop), CropKeyAction::Unchanged);
    assert_eq!(crop, RelativeCropArea::default_relative());
    let start = std::time::Instant::now();
    while start.elapsed().as_millis() < 60 {}
    assert_eq!(
        c.handle(left, &mut crop),
        CropKeyAction::Adjust(CropAdjust { resize: false, left: true, right: false, up: false, down: false })
    );
    assert_eq!(crop, RelativeCropArea { x: 4063 - CROP_ADJUST_STEP, y: 1250, width: 1875, height: 834 });
    // The adjustment restarted the interval.
    assert_eq!(c.handle(left, &mut crop), CropKeyAction::Unchanged);
    assert_eq!(c.handle(keys(true, false, false, false, false, false), &mut crop), CropKeyAction::DebugFrameToggled);
    assert!(c.show_debug_frame());
}

#[test]
fn panel_keys_toggle_and_adjust_in_one_reading() {
    let mut c = CropInputController::new(false);
    let shift_down = keys(true, true, false, false, false, true);
    assert_eq!(
        c.decide_panel(shift_down, 50),
        Some(CropAdjust { resize: true, left: false, right: false, up: false, down: true })
    );
    assert!(c.show_debug_frame());
    assert_eq!(c.decide_panel(shift_down, 49), None);
    assert!(!c.show_debug_frame());
    assert_eq!(c.decide_panel(keys(false, true, false, false, false, false), 200), None);

    let mut crop = RelativeCropArea::default_relative();
    // Right after creation the interval has not passed.
    assert_eq!(c.handle_panel(keys(false, false, false, true, false, false), &mut crop, 100), None);
    let start = std::time::Instant::now();
    while start.elapsed().as_millis() < 60 {}
    assert_eq!(
        c.handle_panel(keys(false, false, false, true, false, false), &mut crop, 100),
        Some(CropAdjust { resize: false, left: false, right: true, up: false, down: false })
    );
    assert_eq!(crop, RelativeCropArea { x: 4163, y: 1250, width: 1875, height: 834 });
}

#[test]
fn default_relative_crop_is_the_720p_default() {
    assert_eq!(RelativeCropArea::default_relative().to_pixels(1280, 720), CropArea::default_720p());
}

#[test]
fn relative_crop_is_clamped_into_the_frame() {
    let mut c = RelativeCropArea { x: 9990, y: 20000, width: 3, height: 12000 };
    c.clamp();
    assert_eq!(c, RelativeCropArea { x: 9975, y: 0, width: 25, height: 10000 });
    let mut inside = RelativeCropArea::default_relative();
    inside.clamp();
    assert_eq!(inside, RelativeCropArea::default_relative());
}

#[test]
fn adjustments_step_move_or_resize_and_stay_inside() {
    let start = RelativeCropArea { x: 10, y: 100, width: 500, height: 400 };
    let left_up = CropAdjust { resize: false, left: true, right: false, up: true, down: false };
    let mut c = start;
    c.adjust(25, left_up);
    // x would go below zero and is held at 0.
    assert_eq!(c, RelativeCropArea { x: 0, y: 75, width: 500, height: 400 });

    let grow = CropAdjust { resize: true, left: false, right: true, up: false, down: true };
    let mut g = start;
    g.adjust(25, grow);
    assert_eq!(g, RelativeCropArea { x: 10, y: 100, width: 525, height: 425 });

    let shrink = CropAdjust { resize: true, left: true, right: false, up: true, down: false };
    let mut s = RelativeCropArea { x: 0, y: 0, width: 30, height: 30 };
    s.adjust(25, shrink);
    assert_eq!(s, RelativeCropArea { x: 0, y: 0, width: 25, height: 25 });

    // Opposite keys cancel.
    let all = CropAdjust { resize: false, left: true, right: true, up: true, down: true };
    let mut a = start;
    a.adjust(25, all);
    assert_eq!(a, start);

    // A move at the right edge is held so the area ends inside the frame.
    let right = CropAdjust { resize: false, left: false, right: true, up: false, down: false };
    let mut r = RelativeCropArea { x: 9490, y: 0, width: 500, height: 500 };
    r.adjust(25, right);
    assert_eq!(r, RelativeCropArea { x: 9500, y: 0, width: 500, height: 500 });
}
