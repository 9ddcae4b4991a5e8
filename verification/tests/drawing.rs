use switch_capture::video::buffer::PixelBuffer;
use switch_capture::video::display::phase_button::PhaseButton;
use switch_capture::video::display::usage_button::{draw_border, UsageButton, BORDER_COLOR};
use switch_capture::video::display::{
    blit_frame, clear_rect, draw_phase_button, draw_red_box, PHASE_BUTTON_COLOR, RED_COLOR,
};
use switch_capture::video::crop::CropArea;
use switch_capture::video::text::draw_text;
use std::sync::atomic::{AtomicBool, Ordering};
use std::sync::Arc;

fn at(pixels: &[u32], width: usize, x: usize, y: usize) -> u32 {
    pixels[y * width + x]
}

#[test]
fn clear_rect_fills_only_the_clipped_rectangle() {
    let mut pixels = vec![7u32; 5 * 4];
    {
        let mut buffer = PixelBuffer::new(&mut pixels, 5, 4);
        buffer.clear_rect(3, 2, 10, 10, 1);
    }
    for y in 0..4 {
        for x in 0..5 {
            let expected = if x >= 3 && y >= 2 { 1 } else { 7 };
            assert_eq!(at(&pixels, 5, x, y), expected, "({x}, {y})");
        }
    }
}

#[test]
fn clear_rect_outside_the_buffer_changes_nothing() {
    let mut pixels = vec![7u32; 4 * 4];
    {
        let mut buffer = PixelBuffer::new(&mut pixels, 4, 4);
        buffer.clear_rect(4, 0, 3, 3, 1);
        buffer.clear_rect(0, 9, 3, 3, 1);
        clear_rect(&mut buffer, 1, 1, 0, 2, 1);
    }
    assert!(pixels.iter().all(|&p| p == 7));
}

#[test]
fn free_clear_rect_matches_the_method() {
    let mut a = vec![0u32; 6 * 6];
    let mut b = vec![0u32; 6 * 6];
    {
        let mut buffer = PixelBuffer::new(&mut a, 6, 6);
        clear_rect(&mut buffer, 1, 2, 3, 2, 9);
        assert_eq!(buffer.pixels_mut().len(), 36);
    }
    {
        let mut buffer = PixelBuffer::new(&mut b, 6, 6);
        buffer.clear_rect(1, 2, 3, 2, 9);
    }
    assert_eq!(a, b);
    assert_eq!(a.iter().filter(|&&p| p == 9).count(), 6);
}

#[test]
fn draw_text_draws_scaled_glyphs() {
    let (w, h) = (40, 10);
    let mut pixels = vec![0u32; w * h];
    draw_text(&mut pixels, w, h, 1, 1, "Te", 5, 1, 1);
    // 'T': top row full across columns 1..6, then the stem at column 3.
    for x in 1..6 {
        assert_eq!(at(&pixels, w, x, 1), 5);
    }
    assert_eq!(at(&pixels, w, 3, 2), 5);
    assert_eq!(at(&pixels, w, 2, 2), 0);
    // 'e' (upper-cased): starts at 1 + 5 + 1 = 7; row 3 is "####.".
    for x in 7..11 {
        assert_eq!(at(&pixels, w, x, 4), 5);
    }
    assert_eq!(at(&pixels, w, 11, 4), 0);
    assert_eq!(at(&pixels, w, 0, 0), 0);
    // T has 11 cells, E has 18.
    assert_eq!(pixels.iter().filter(|&&p| p == 5).count(), 11 + 18);
}

#[test]
fn draw_text_scales_cells_and_skips_unknown_characters() {
    let (w, h) = (40, 20);
    let mut pixels = vec![0u32; w * h];
    // '?' has no glyph and leaves a gap of one character; scale 0 counts as 1.
    draw_text(&mut pixels, w, h, 0, 0, "?X", 3, 0, 0);
    assert_eq!(at(&pixels, w, 5, 0), 3);
    assert_eq!(at(&pixels, w, 0, 0), 0);
    let mut scaled = vec![0u32; w * h];
    draw_text(&mut scaled, w, h, 0, 0, "X", 3, 2, 0);
    assert_eq!(scaled.iter().filter(|&&p| p == 3).count(), 13 * 4);
    assert_eq!(at(&scaled, w, 1, 1), 3);
    assert_eq!(at(&scaled, w, 2, 0), 0);
}

#[test]
fn draw_text_clips_at_the_buffer_edges() {
    let (w, h) = (8, 4);
    let mut pixels = vec![0u32; w * h];
    draw_text(&mut pixels, w, h, 5, 1, "TEST TEXT", 1, 1, 2);
    assert_eq!(pixels.iter().filter(|&&p| p == 1).count(), 3 + 1 + 1);
    assert_eq!(at(&pixels, w, 7, 1), 1);
}

#[test]
fn phase_button_is_a_right_pointing_triangle() {
    let (w, h) = (20, 20);
    let mut pixels = vec![0u32; w * h];
    {
        let mut buffer = PixelBuffer::new(&mut pixels, w, h);
        draw_phase_button(&mut buffer, 2, 1);
    }
    // Row spans 12 * (8 - |dy - 8|) / 8: 0, 1, 3, 4, 6, 7, 9, 10, 12, 10, ...
    let spans = [0, 1, 3, 4, 6, 7, 9, 10, 12, 10, 9, 7, 6, 4, 3, 1];
    for (dy, span) in spans.iter().enumerate() {
        let row: Vec<u32> = (0..w).map(|x| at(&pixels, w, x, 1 + dy)).collect();
        let count = row.iter().filter(|&&p| p == PHASE_BUTTON_COLOR).count();
        assert_eq!(count, *span, "row {dy}");
        if *span > 0 {
            assert_eq!(row[2], PHASE_BUTTON_COLOR);
            assert_eq!(row[1], 0);
        }
    }
}

#[test]
fn red_box_draws_a_three_pixel_outline() {
    let (w, h) = (20, 20);
    let mut pixels = vec![0u32; w * h];
    {
        let mut buffer = PixelBuffer::new(&mut pixels, w, h);
        let crop = CropArea { x: 2, y: 3, width: 10, height: 8 };
        draw_red_box(&mut buffer, 1, 0, &crop);
    }
    // Box spans columns 3..13 and rows 3..11; a 10 x 8 box with 3-pixel lines
    // leaves a 4 x 2 hole.
    assert_eq!(pixels.iter().filter(|&&p| p == RED_COLOR).count(), 10 * 8 - 4 * 2);
    assert_eq!(at(&pixels, w, 3, 3), RED_COLOR);
    assert_eq!(at(&pixels, w, 12, 10), RED_COLOR);
    assert_eq!(at(&pixels, w, 7, 6), 0);
    assert_eq!(at(&pixels, w, 13, 3), 0);
}

#[test]
fn red_box_is_held_to_the_buffer() {
    let (w, h) = (10, 10);
    let mut pixels = vec![0u32; w * h];
    {
        let mut buffer = PixelBuffer::new(&mut pixels, w, h);
        let crop = CropArea { x: 6, y: 6, width: 20, height: 20 };
        draw_red_box(&mut buffer, 0, 0, &crop);
    }
    // The box is cut to columns and rows 6..10; all 16 pixels are on the outline.
    assert_eq!(pixels.iter().filter(|&&p| p == RED_COLOR).count(), 16);
}

#[test]
fn border_draws_the_rectangle_edges() {
    let (w, h) = (10, 10);
    let mut pixels = vec![0u32; w * h];
    {
        let mut buffer = PixelBuffer::new(&mut pixels, w, h);
        draw_border(&mut buffer, 1, 2, 4, 3);
    }
    assert_eq!(pixels.iter().filter(|&&p| p == BORDER_COLOR).count(), 10);
    assert_eq!(at(&pixels, w, 2, 3), 0);
    assert_eq!(at(&pixels, w, 4, 4), BORDER_COLOR);
}

#[test]
fn border_past_the_right_edge_wraps_and_stops_at_the_slice_end() {
    let (w, h) = (4, 2);
    let mut pixels = vec![0u32; w * h];
    {
        let mut buffer = PixelBuffer::new(&mut pixels, w, h);
        draw_border(&mut buffer, 3, 1, 2, 1);
    }
    // Index 1 * 4 + 3 = 7 is inside; 1 * 4 + 4 = 8 is past the slice.
    assert_eq!(pixels[7], BORDER_COLOR);
    assert_eq!(pixels.iter().filter(|&&p| p == BORDER_COLOR).count(), 1);
}

#[test]
fn phase_button_click_sets_the_flag_once_per_press() {
    let flag = Arc::new(AtomicBool::new(false));
    let mut button = PhaseButton::new(Arc::clone(&flag));
    // Hidden: no click.
    assert!(!button.handle_mouse(true, Some((5, 5))));
    assert!(!button.handle_mouse(false, None));
    let mut pixels = vec![0u32; 100 * 60];
    {
        let mut buffer = PixelBuffer::new(&mut pixels, 100, 60);
        button.update_for_text(&mut buffer, 10, 40, (30, 20));
        // The button sits at (10 + 30 + 8, 40 + (20 - 16) / 2) = (48, 42).
        assert!(!button.handle_mouse(true, Some((47, 42))));
        assert!(!button.handle_mouse(false, None));
        assert!(button.handle_mouse(true, Some((48, 42))));
        assert!(flag.load(Ordering::Relaxed));
        flag.store(false, Ordering::Relaxed);
        assert!(!button.handle_mouse(true, Some((50, 50))));
        assert!(!flag.load(Ordering::Relaxed));
        assert!(!button.handle_mouse(false, Some((50, 50))));
        assert!(button.handle_mouse(true, Some((59, 57))));
        assert!(!button.handle_mouse(false, None));
        assert!(!button.handle_mouse(true, Some((60, 57))));
        button.clear(&mut buffer, 0);
    }
    assert!(pixels.iter().all(|&p| p == 0));
}

#[test]
fn phase_button_hides_without_text() {
    let flag = Arc::new(AtomicBool::new(false));
    let mut button = PhaseButton::new(Arc::clone(&flag));
    let mut pixels = vec![0u32; 100 * 60];
    {
        let mut buffer = PixelBuffer::new(&mut pixels, 100, 60);
        button.update_for_text(&mut buffer, 10, 40, (30, 20));
        button.update_for_text(&mut buffer, 10, 40, (0, 20));
    }
    assert!(!button.handle_mouse(true, Some((48, 42))));
    assert!(!flag.load(Ordering::Relaxed));
}

#[test]
fn usage_button_frames_its_label_and_clicks_on_press() {
    let mut button = UsageButton::new();
    assert!(!button.handle_mouse(true, Some((0, 0))));
    let mut pixels = vec![0u32; 100 * 60];
    {
        let mut buffer = PixelBuffer::new(&mut pixels, 100, 60);
        button.update_for_label(&mut buffer, 5, 5, (20, 10));
    }
    // A 32 x 22 border.
    assert_eq!(pixels.iter().filter(|&&p| p == BORDER_COLOR).count(), 2 * 32 + 2 * 20);
    assert!(!button.handle_mouse(false, None));
    assert!(button.handle_mouse(true, Some((36, 26))));
    assert!(!button.handle_mouse(true, Some((36, 26))));
    assert!(!button.handle_mouse(false, None));
    assert!(!button.handle_mouse(true, Some((37, 26))));
}

#[test]
fn frame_is_copied_between_the_panels() {
    let (w, h) = (7, 3);
    let mut pixels = vec![0u32; w * h];
    let frame: Vec<u32> = (1..=6).collect();
    let mut buffer = PixelBuffer::new(&mut pixels, w, h);
    blit_frame(&mut buffer, 2, &frame, 3, 2);
    assert_eq!(
        pixels,
        vec![
            0, 0, 1, 2, 3, 0, 0, //
            0, 0, 4, 5, 6, 0, 0, //
            0, 0, 0, 0, 0, 0, 0,
        ]
    );
}

#[test]
fn hidden_button_needs_no_room_past_the_text() {
    let flag = Arc::new(AtomicBool::new(false));
    let mut button = PhaseButton::new(Arc::clone(&flag));
    let mut pixels = vec![3u32; 20 * 10];
    {
        let mut buffer = PixelBuffer::new(&mut pixels, 20, 10);
        button.update_for_text(&mut buffer, usize::MAX, usize::MAX, (0, usize::MAX));
    }
    assert!(pixels.iter().all(|&p| p == 3));
    assert!(!button.handle_mouse(true, Some((0, 0))));
}

#[test]
fn clearing_the_button_with_the_background_restores_the_panel() {
    let flag = Arc::new(AtomicBool::new(false));
    let mut button = PhaseButton::new(Arc::clone(&flag));
    let mut pixels = vec![9u32; 100 * 60];
    let before = pixels.clone();
    {
        let mut buffer = PixelBuffer::new(&mut pixels, 100, 60);
        button.update_for_text(&mut buffer, 10, 40, (30, 16));
    }
    assert_ne!(pixels, before);
    {
        let mut buffer = PixelBuffer::new(&mut pixels, 100, 60);
        button.clear(&mut buffer, 9);
    }
    assert_eq!(pixels, before);
}

fn drawn(text: &str, x: usize, scale: usize) -> Vec<u32> {
    let (w, h) = (60, 20);
    let mut pixels = vec![0u32; w * h];
    draw_text(&mut pixels, w, h, x, 1, text, 5, scale, 1);
    pixels
}

#[test]
fn text_laws_on_examples() {
    // Lower case draws as upper case.
    assert_eq!(drawn("tEsx", 1, 1), drawn("TESX", 1, 1));
    // Scale 0 draws as scale 1.
    assert_eq!(drawn("TEST", 2, 0), drawn("TEST", 2, 1));
    // A character without a glyph only moves the rest one advance right.
    assert_eq!(drawn("?TE", 1, 1), drawn("TE", 1 + 5 + 1, 1));
    assert_eq!(drawn("!T", 0, 2), drawn("T", 10 + 1, 2));
}
