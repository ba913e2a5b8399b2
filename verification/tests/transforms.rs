use walrs::builder::{augment_colors, remove_duplicates, sort_by_luma};
use walrs::color::{adjust_rgb, luma_value, to_gray};
use walrs::format::{change, parse_hex_color, str_contains};

#[test]
fn adjust_identity_at_full_saturation() {
    assert_eq!(adjust_rgb(100, 150, 200, 0, 100), (100, 150, 200));
}

#[test]
fn adjust_brightness_is_additive() {
    assert_eq!(adjust_rgb(100, 150, 200, 10, 100), (110, 160, 210));
}

#[test]
fn adjust_zero_saturation_averages() {
    // avg of (100, 150, 200) is 150; saturation 0 collapses every channel
    assert_eq!(adjust_rgb(100, 150, 200, 0, 0), (150, 150, 150));
}

#[test]
fn adjust_clamps_low_and_high() {
    assert_eq!(adjust_rgb(10, 20, 30, -50, 100), (0, 0, 0));
    assert_eq!(adjust_rgb(0, 0, 255, 0, 127), (0, 0, 255));
    assert_eq!(adjust_rgb(255, 255, 255, 127, 127), (255, 255, 255));
    assert_eq!(adjust_rgb(0, 0, 0, -128, -128), (0, 0, 0));
}

#[test]
fn adjust_truncates_the_graded_fraction() {
    // avg of (1, 2, 3) is 2; channel 3 becomes (3 - 2) * 0.5 + 2 = 2.5 -> 2
    assert_eq!(adjust_rgb(1, 2, 3, 0, 50), (1, 2, 2));
}

#[test]
fn gray_of_red_rounds_up() {
    assert_eq!(to_gray(255, 0, 0, 0), (77, 77, 77));
}

#[test]
fn gray_of_green_truncates() {
    assert_eq!(to_gray(0, 255, 0, 0), (150, 150, 150));
}

#[test]
fn gray_add_saturates() {
    assert_eq!(to_gray(255, 0, 0, 200), (255, 255, 255));
    assert_eq!(to_gray(255, 255, 255, 1), (255, 255, 255));
}

#[test]
fn luma_weights() {
    assert_eq!(luma_value((255, 0, 0)), 76245);
    assert_eq!(luma_value((0, 255, 0)), 149685);
    assert_eq!(luma_value((0, 0, 255)), 29070);
}

#[test]
fn dedup_keeps_first_occurrences() {
    let input = vec![(1u8, 2u8, 3u8), (4, 5, 6), (1, 2, 3), (7, 8, 9), (4, 5, 6)];
    assert_eq!(remove_duplicates(input), vec![(1, 2, 3), (4, 5, 6), (7, 8, 9)]);
}

#[test]
fn dedup_of_empty_is_empty() {
    assert_eq!(remove_duplicates(Vec::new()), Vec::new());
}

#[test]
fn augment_grows_to_minimum() {
    let mut working = vec![(100u8, 100u8, 100u8)];
    augment_colors(&mut working);
    assert_eq!(working.len(), 22);
    assert_eq!(working[0], (100, 100, 100));
    // step 0 shifts the cycled element by 10 x 1 at half saturation
    assert_eq!(working[1], adjust_rgb(100, 100, 100, 10, 50));
}

#[test]
fn augment_leaves_a_full_set_alone() {
    let full: Vec<(u8, u8, u8)> = (0..25u8).map(|i| (i, i, i)).collect();
    let mut working = full.clone();
    augment_colors(&mut working);
    assert_eq!(working, full);
}

#[test]
fn sort_orders_by_ascending_luma() {
    let mut colors = vec![(255u8, 255u8, 255u8), (0, 0, 0), (255, 0, 0)];
    sort_by_luma(&mut colors);
    assert_eq!(colors, vec![(0, 0, 0), (255, 0, 0), (255, 255, 255)]);
}

#[test]
fn sort_keeps_all_elements() {
    let mut colors = vec![(9u8, 9u8, 9u8), (1, 1, 1), (9, 9, 9), (5, 5, 5)];
    sort_by_luma(&mut colors);
    assert_eq!(colors, vec![(1, 1, 1), (5, 5, 5), (9, 9, 9), (9, 9, 9)]);
}

#[test]
fn change_strip_is_bare_hex() {
    assert_eq!(change("{background.strip}", (255, 16, 2), 128), "ff1002");
}

#[test]
fn change_xrgba_interleaves_alpha() {
    assert_eq!(change("{color1.xrgba}", (255, 16, 2), 128), "ff/10/02/80");
}

#[test]
fn change_rgba_is_decimal_with_alpha() {
    assert_eq!(change("{color2.rgba}", (255, 16, 2), 128), "255,16,2,128");
}

#[test]
fn change_rgb_is_decimal() {
    assert_eq!(change("{color3.rgb}", (255, 16, 2), 128), "255,16,2");
}

#[test]
fn change_alpha_per_is_integer_percent() {
    assert_eq!(change("{color0.alpha_per}", (1, 2, 3), 255), "100");
    assert_eq!(change("{color0.alpha_per}", (1, 2, 3), 254), "0");
}

#[test]
fn change_alpha_appends_alpha_byte() {
    assert_eq!(change("{color4.alpha}", (255, 16, 2), 128), "#ff100280");
}

#[test]
fn change_default_is_hash_hex() {
    assert_eq!(change("{color5}", (255, 16, 2), 128), "#ff1002");
    assert_eq!(change("{background}", (0, 0, 0), 0), "#000000");
}

#[test]
fn contains_finds_substrings() {
    assert!(str_contains("{color5.rgb}", ".rgb"));
    assert!(!str_contains("{color5.rgb}", ".rgba"));
    assert!(str_contains("abc", ""));
    assert!(!str_contains("ab", "abc"));
}

#[test]
fn parse_hex_reads_both_cases() {
    assert_eq!(parse_hex_color("#ff1002"), Some((255, 16, 2)));
    assert_eq!(parse_hex_color("#FF1002"), Some((255, 16, 2)));
    assert_eq!(parse_hex_color("#000000"), Some((0, 0, 0)));
}

#[test]
fn parse_hex_rejects_malformed_lines() {
    assert_eq!(parse_hex_color("ff1002"), None);
    assert_eq!(parse_hex_color("#ff100"), None);
    assert_eq!(parse_hex_color("#ff10022"), None);
    assert_eq!(parse_hex_color("#gg0000"), None);
    assert_eq!(parse_hex_color(""), None);
}

#[test]
fn hex_round_trips_through_change() {
    for color in [(0u8, 0u8, 0u8), (255, 255, 255), (12, 200, 9), (1, 2, 3)] {
        let line = change("{color0}", color, 77);
        assert_eq!(parse_hex_color(&line), Some(color));
    }
}
