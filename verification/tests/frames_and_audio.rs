use switch_capture::inference::preprocess::white_text_mask;
use switch_capture::audio::resample::{calculate_ring_buffer_capacity, frame_at};
use switch_capture::audio::CpalAudioPassthrough;
use switch_capture::hardware::HardwareProfile;
use switch_capture::video::capture::find_device_index;
use switch_capture::video::colorspace::{decode_yuyv_row, yuv_to_packed_rgb};
use switch_capture::video::crop::{CropArea, RelativeCropArea};
use switch_capture::video::pixel::{pack_rgb, unpack_rgb};

#[test]
fn frame_at_clamps_index_to_bounds() {
    let input = [0.0f32, 1.0, 2.0, 3.0];
    assert_eq!(frame_at(&input, 0, 2, 2)[0], 0.0);
    assert_eq!(frame_at(&input, 0, 2, 2)[1], 1.0);
    assert_eq!(frame_at(&input, 1, 2, 2)[0], 2.0);
    assert_eq!(frame_at(&input, 1, 2, 2)[1], 3.0);
    // An index past the end gives the last frame.
    assert_eq!(frame_at(&input, 99, 2, 2)[0], 2.0);
    assert_eq!(frame_at(&input, 99, 2, 2)[1], 3.0);
}

#[test]
fn ring_buffer_holds_the_target_latency() {
    // 48 kHz stereo for 50 ms.
    assert_eq!(calculate_ring_buffer_capacity(48000, 2, 50), 4800);
    // Rounded down: 44.1 kHz mono for 1 ms is 44.1 samples.
    assert_eq!(calculate_ring_buffer_capacity(44100, 1, 1), 44);
    assert_eq!(calculate_ring_buffer_capacity(48000, 2, 0), 0);
}

#[test]
fn gc311_profile_describes_the_capture_card() {
    let p = HardwareProfile::avermedia_live_gamer_mini_gc311();
    assert_eq!(p.name, "AVerMedia Live Gamer MINI (GC311)");
    assert_eq!(p.audio_device_keyword, "gc311");
    assert_eq!(p.video_device_keyword, "avermedia");
    assert_eq!(p.video.resolution(), (1280, 720));
    assert_eq!(p.video.fps, 60);
}

#[test]
fn audio_input_is_found_by_lower_cased_keyword() {
    let p = HardwareProfile::avermedia_live_gamer_mini_gc311();
    let passthrough = CpalAudioPassthrough::for_hardware(&p);
    let names = vec![
        None,
        Some("Microphone (Realtek Audio)".to_string()),
        Some("AVerMedia GC311 Audio".to_string()),
        Some("gc311 second".to_string()),
    ];
    // The upper-case "GC311" matches only once the name is lower-cased.
    assert_eq!(passthrough.find_input_device(&names), Some(2));
    let others = vec![Some("Speakers".to_string()), None];
    assert_eq!(passthrough.find_input_device(&others), None);
    assert_eq!(passthrough.find_input_device(&[]), None);
}

#[test]
fn video_device_is_found_by_name_ignoring_case() {
    let names = vec!["USB Camera".to_string(), "AVerMedia Live Gamer MINI".to_string()];
    assert_eq!(find_device_index(&names, "AVERMEDIA"), Some(1));
    assert_eq!(find_device_index(&names, "avermedia"), Some(1));
    assert_eq!(find_device_index(&names, "elgato"), None);
    assert_eq!(find_device_index(&[], "avermedia"), None);
    // Every name contains the empty keyword.
    assert_eq!(find_device_index(&names, ""), Some(0));
}

#[test]
fn pack_and_unpack_are_inverse() {
    assert_eq!(pack_rgb(0x12, 0x34, 0x56), 0x0012_3456);
    assert_eq!(unpack_rgb(0x0012_3456), (0x12, 0x34, 0x56));
    assert_eq!(unpack_rgb(0xFFAB_CDEF), (0xAB, 0xCD, 0xEF));
    assert_eq!(unpack_rgb(pack_rgb(1, 2, 3)), (1, 2, 3));
}

#[test]
fn studio_range_black_and_white() {
    assert_eq!(yuv_to_packed_rgb(16, 128, 128), 0x0000_0000);
    assert_eq!(yuv_to_packed_rgb(235, 128, 128), 0x00FF_FFFF);
    // Below black and above white are held to the range.
    assert_eq!(yuv_to_packed_rgb(0, 128, 128), 0x0000_0000);
    assert_eq!(yuv_to_packed_rgb(255, 128, 128), 0x00FF_FFFF);
}

#[test]
fn saturated_red_sample() {
    // red: (298*66 + 409*112 + 128) >> 8 = 256 -> 255
    // green: (298*66 + 100*38 - 208*112 + 128) >> 8 = 1
    // blue: (298*66 - 516*38 + 128) >> 8 = 0
    assert_eq!(yuv_to_packed_rgb(82, 90, 240), 0x00FF_0100);
}

#[test]
fn yuyv_row_decodes_pixel_pairs() {
    let input = [16u8, 128, 235, 128, 82, 90, 82, 240];
    let mut output = [7u32; 5];
    decode_yuyv_row(&input, &mut output);
    assert_eq!(output[0], 0x0000_0000);
    assert_eq!(output[1], 0x00FF_FFFF);
    assert_eq!(output[2], 0x00FF_0100);
    assert_eq!(output[3], 0x00FF_0100);
    // No whole pair left for the fifth pixel.
    assert_eq!(output[4], 7);
}

#[test]
fn yuyv_row_stops_at_the_shorter_side() {
    let input = [16u8, 128, 16, 128];
    let mut output = [7u32; 4];
    decode_yuyv_row(&input, &mut output);
    assert_eq!(output, [0, 0, 7, 7]);
}

#[test]
fn default_crop_of_a_720p_frame() {
    assert_eq!(
        CropArea::default_720p(),
        CropArea { x: 520, y: 90, width: 240, height: 60 }
    );
}

#[test]
fn clamp_holds_the_crop_inside_the_frame() {
    let mut c = CropArea { x: 1270, y: 700, width: 5, height: 1000 };
    c.clamp(1280, 720);
    assert_eq!(c, CropArea { x: 1260, y: 0, width: 20, height: 720 });
    // A crop already inside stays as it is.
    let mut d = CropArea::default_720p();
    d.clamp(1280, 720);
    assert_eq!(d, CropArea::default_720p());
    // Clamping again changes nothing.
    let mut e = c;
    e.clamp(1280, 720);
    assert_eq!(e, c);
}

#[test]
fn relative_crop_scales_down_to_pixels() {
    let r = RelativeCropArea { x: 2613, y: 1450, width: 775, height: 1008 };
    assert_eq!(r.to_pixels(1280, 720), CropArea { x: 334, y: 104, width: 99, height: 72 });
    let whole = RelativeCropArea { x: 0, y: 0, width: 10000, height: 10000 };
    assert_eq!(whole.to_pixels(640, 480), CropArea { x: 0, y: 0, width: 640, height: 480 });
}

#[test]
fn white_text_becomes_black_on_white() {
    assert_eq!(white_text_mask(180, 200, 255, 180), 0);
    assert_eq!(white_text_mask(255, 255, 179, 180), 255);
    assert_eq!(white_text_mask(0, 0, 0, 0), 0);
    assert_eq!(white_text_mask(10, 200, 200, 180), 255);
}
