use switch_capture::inference::analysis::{resolve_party_names, set_party_names};
use switch_capture::inference::party_matcher::{
    extract_crop_rgb, opaque_bounding_box, reusable_cache_entry, PartySlots, PixelBox,
    ALPHA_OPAQUE_THRESHOLD,
};
use switch_capture::inference::pokemon_names::{NameDataError, PokemonNameLookup};
use switch_capture::text_match::{chars_of, is_white_space_char, remove_white_space, str_contains};
use switch_capture::video::crop::{CropArea, RelativeCropArea};

fn lookup() -> PokemonNameLookup {
    let entries = vec![
        ("199_1".to_string(), "ヤドキング(ガラル)".to_string()),
        ("25_0".to_string(), "ピカチュウ".to_string()),
        ("199_1".to_string(), "ヤドキング".to_string()),
    ];
    match PokemonNameLookup::from_entries(entries) {
        Ok(l) => l,
        Err(_) => panic!("entries are not empty"),
    }
}

#[test]
fn no_entries_is_an_error() {
    assert!(matches!(PokemonNameLookup::from_entries(Vec::new()), Err(NameDataError::Empty)));
}

#[test]
fn names_resolve_by_file_name_without_extension() {
    let l = lookup();
    assert_eq!(l.resolve("25_0.png"), "ピカチュウ");
    assert_eq!(l.resolve("25_0"), "ピカチュウ");
    // A later entry for the same key replaces the earlier one.
    assert_eq!(l.resolve("199_1.png"), "ヤドキング");
}

#[test]
fn unknown_and_empty_file_names() {
    let l = lookup();
    assert_eq!(l.resolve("999_0.png"), "999_0.png");
    assert_eq!(l.resolve(""), "");
    // Only a trailing ".png" is removed.
    assert_eq!(l.resolve("25_0.jpg"), "25_0.jpg");
}

#[test]
fn empty_lookup_gives_back_the_file_name() {
    let l = PokemonNameLookup::empty();
    assert_eq!(l.resolve("25_0.png"), "25_0.png");
}

#[test]
fn party_names_follow_the_matches() {
    let l = lookup();
    let matches = vec![Some("25_0.png".to_string()), None, Some("1_0.png".to_string())];
    let names = resolve_party_names(&matches, &l);
    assert_eq!(names, vec!["ピカチュウ".to_string(), String::new(), "1_0.png".to_string()]);
    let mut status = vec!["old".to_string()];
    set_party_names(&mut status, names.clone());
    assert_eq!(status, names);
}

#[test]
fn default_party_slots() {
    let slots = PartySlots::default();
    assert_eq!(slots.ally[0], RelativeCropArea { x: 2613, y: 1450, width: 775, height: 1008 });
    assert_eq!(slots.ally[5], RelativeCropArea { x: 2613, y: 7300, width: 775, height: 1008 });
    assert_eq!(slots.opponent[2], RelativeCropArea { x: 8400, y: 3775, width: 775, height: 1008 });
    let all = slots.all_crops();
    assert_eq!(all.len(), 12);
    assert_eq!(all[0], slots.ally[0]);
    assert_eq!(all[5], slots.ally[5]);
    assert_eq!(all[6], slots.opponent[0]);
    assert_eq!(all[11], slots.opponent[5]);
}

fn rgba(width: usize, height: usize, opaque: &[(usize, usize)]) -> Vec<u8> {
    let mut v = vec![255u8; 4 * width * height];
    for i in 0..width * height {
        v[4 * i + 3] = ALPHA_OPAQUE_THRESHOLD - 1;
    }
    for &(x, y) in opaque {
        v[4 * (y * width + x) + 3] = ALPHA_OPAQUE_THRESHOLD;
    }
    v
}

#[test]
fn transparent_icon_has_no_box() {
    assert_eq!(opaque_bounding_box(&rgba(4, 3, &[]), 4, 3), None);
    assert_eq!(opaque_bounding_box(&[], 0, 0), None);
}

#[test]
fn box_is_the_tightest_around_opaque_pixels() {
    let img = rgba(4, 3, &[(1, 0), (2, 2)]);
    assert_eq!(opaque_bounding_box(&img, 4, 3), Some(PixelBox { x: 1, y: 0, width: 2, height: 3 }));
    let single = rgba(5, 5, &[(3, 1)]);
    assert_eq!(opaque_bounding_box(&single, 5, 5), Some(PixelBox { x: 3, y: 1, width: 1, height: 1 }));
}

#[test]
fn crop_is_cut_out_as_rgb_bytes() {
    // A 3 x 2 frame of distinct pixels.
    let frame: Vec<u32> = vec![0x0001_0203, 0x0004_0506, 0x0007_0809, 0x000A_0B0C, 0x000D_0E0F, 0x0010_1112];
    let crop = CropArea { x: 1, y: 0, width: 2, height: 2 };
    let bytes = extract_crop_rgb(&frame, 3, 2, crop);
    assert_eq!(
        bytes,
        Some(vec![4, 5, 6, 7, 8, 9, 13, 14, 15, 16, 17, 18])
    );
}

#[test]
fn crop_past_the_frame_repeats_the_edge() {
    let frame: Vec<u32> = vec![0x0001_0203, 0x0004_0506, 0x0007_0809, 0x000A_0B0C];
    let crop = CropArea { x: 1, y: 1, width: 2, height: 2 };
    let bytes = extract_crop_rgb(&frame, 2, 2, crop);
    assert_eq!(bytes, Some(vec![10, 11, 12, 10, 11, 12, 10, 11, 12, 10, 11, 12]));
}

#[test]
fn empty_crop_gives_nothing() {
    let frame: Vec<u32> = vec![0; 4];
    assert_eq!(extract_crop_rgb(&frame, 2, 2, CropArea { x: 0, y: 0, width: 0, height: 2 }), None);
    assert_eq!(extract_crop_rgb(&frame, 2, 2, CropArea { x: 0, y: 0, width: 2, height: 0 }), None);
}

#[test]
fn cached_embedding_is_reused_only_for_the_same_file_time() {
    let cached = vec![
        ("a.png".to_string(), 5u128),
        ("b.png".to_string(), 7u128),
        ("a.png".to_string(), 9u128),
    ];
    assert_eq!(reusable_cache_entry(&cached, "a.png", 9), Some(2));
    // The last entry for a file is the one that counts.
    assert_eq!(reusable_cache_entry(&cached, "a.png", 5), None);
    assert_eq!(reusable_cache_entry(&cached, "b.png", 7), Some(1));
    assert_eq!(reusable_cache_entry(&cached, "c.png", 1), None);
    assert_eq!(reusable_cache_entry(&[], "a.png", 1), None);
}

#[test]
fn substring_search() {
    assert!(str_contains("hello world", "lo w"));
    assert!(str_contains("ランクバトル", "バト"));
    assert!(str_contains("abc", ""));
    assert!(!str_contains("abc", "abcd"));
    assert!(!str_contains("abc", "ac"));
}

#[test]
fn white_space_is_removed_including_ideographic_space() {
    assert_eq!(remove_white_space("a b\tc\u{3000}d\n"), "abcd");
    assert_eq!(remove_white_space("ラ ン　ク"), "ランク");
    assert_eq!(remove_white_space(""), "");
    assert!(is_white_space_char('\u{3000}'));
    assert!(is_white_space_char('\u{a0}'));
    assert!(!is_white_space_char('a'));
    assert_eq!(chars_of("aé"), vec!['a', 'é']);
}

#[test]
fn known_keys_are_told_from_unknown_ones() {
    let l = lookup();
    assert!(l.knows("25_0.png"));
    assert!(l.knows("199_1"));
    assert!(!l.knows("999_0.png"));
    assert!(!l.knows(""));
    assert!(!PokemonNameLookup::empty().knows("25_0.png"));
}
