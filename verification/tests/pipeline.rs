use walrs::backend::{parse_backend, Backend, Selector};
use walrs::builder::{augment_colors, remove_duplicates, sort_by_luma};
use walrs::color::luma_value;
use walrs::imaging::decode_rgba;
use walrs::quantize::{color_thief_colors, extract_colors, kmeans_colors, palette_extract_colors};
use walrs::slots::map_slots;
use walrs::{get_colors, PaletteError};

fn png_bytes(img: image::RgbaImage) -> Vec<u8> {
    let mut buf = std::io::Cursor::new(Vec::new());
    image::DynamicImage::ImageRgba8(img)
        .write_to(&mut buf, image::ImageFormat::Png)
        .unwrap();
    buf.into_inner()
}

fn red_pixel_png() -> Vec<u8> {
    let img = image::RgbaImage::from_pixel(1, 1, image::Rgba([255, 0, 0, 255]));
    png_bytes(img)
}

fn four_block_png() -> Vec<u8> {
    // four flat vertical stripes of known, distinct, non-white solid colors
    let colors = [
        [200u8, 30, 30, 255],
        [30, 160, 40, 255],
        [40, 50, 180, 255],
        [120, 110, 20, 255],
    ];
    let img = image::RgbaImage::from_fn(80, 40, |x, _y| {
        image::Rgba(colors[(x / 20) as usize])
    });
    png_bytes(img)
}

#[test]
fn red_pixel_scenario() {
    let bytes = red_pixel_png();
    let (palette, alpha) = get_colors(&bytes, "kmeans", None, None).unwrap();
    assert_eq!(alpha, 255);
    assert_eq!(palette.len(), 16);
    assert_eq!(palette[7], palette[15]);
    let (r, g, b) = palette[7];
    assert_eq!(r, g);
    assert_eq!(g, b);
}

#[test]
fn red_pixel_single_base_color_after_dedup() {
    let bytes = red_pixel_png();
    let buf = decode_rgba(&bytes).unwrap();
    let raw = extract_colors(30, Backend::KMeans, &buf).unwrap();
    let deduped = remove_duplicates(raw);
    assert_eq!(deduped.len(), 1);
    let (r, g, b) = deduped[0];
    assert!(r > 240 && g < 15 && b < 15, "expected a red base color, got {:?}", (r, g, b));
}

#[test]
fn unknown_backend_scenario() {
    let bytes = red_pixel_png();
    assert_eq!(
        get_colors(&bytes, "nope", None, None),
        Err(PaletteError::UnknownBackendError)
    );
}

#[test]
fn corrupt_image_scenario() {
    let garbage = vec![0x13u8, 0x37, 0x00, 0xff, 0x42, 0x99, 0x21, 0x08];
    assert_eq!(
        get_colors(&garbage, "all", None, None),
        Err(PaletteError::ImageDecodeError)
    );
}

#[test]
fn four_block_luma_order() {
    let bytes = four_block_png();
    let buf = decode_rgba(&bytes).unwrap();
    let raw = extract_colors(30, Backend::All, &buf).unwrap();
    let mut working = remove_duplicates(raw);
    assert!(!working.is_empty());
    augment_colors(&mut working);
    assert!(working.len() >= 22);
    sort_by_luma(&mut working);
    for pair in working.windows(2) {
        assert!(luma_value(pair[0]) <= luma_value(pair[1]));
    }
}

#[test]
fn four_block_backends_recover_dominant_colors() {
    let bytes = four_block_png();
    let buf = decode_rgba(&bytes).unwrap();
    let stripes: [(u8, u8, u8); 4] =
        [(200, 30, 30), (30, 160, 40), (40, 50, 180), (120, 110, 20)];
    let near = |got: &[(u8, u8, u8)], want: (u8, u8, u8), tol: i32| {
        got.iter().any(|&(r, g, b)| {
            (r as i32 - want.0 as i32).abs() <= tol && (g as i32 - want.1 as i32).abs() <= tol
                && (b as i32 - want.2 as i32).abs() <= tol
        })
    };
    let km = kmeans_colors(10, &buf).unwrap();
    let ct = color_thief_colors(10, &buf).unwrap();
    let pe = palette_extract_colors(10, &buf).unwrap();
    for &want in stripes.iter() {
        assert!(near(&km, want, 40), "kmeans missed {:?} in {:?}", want, km);
        assert!(near(&ct, want, 40), "color thief missed {:?} in {:?}", want, ct);
        assert!(near(&pe, want, 40), "palette extract missed {:?} in {:?}", want, pe);
    }
}

#[test]
fn determinism_same_inputs_same_palette() {
    let bytes = four_block_png();
    let first = get_colors(&bytes, "all", Some(10), Some(-20)).unwrap();
    let second = get_colors(&bytes, "all", Some(10), Some(-20)).unwrap();
    assert_eq!(first, second);
}

#[test]
fn transparent_image_gives_quantization_error() {
    let img = image::RgbaImage::from_pixel(1, 1, image::Rgba([0, 0, 0, 0]));
    let bytes = png_bytes(img);
    assert_eq!(
        get_colors(&bytes, "kmeans", None, None),
        Err(PaletteError::QuantizationError)
    );
}

#[test]
fn decode_resizes_to_working_width() {
    let bytes = red_pixel_png();
    let buf = decode_rgba(&bytes).unwrap();
    assert_eq!(buf.width, 400);
    assert!(buf.height >= 1);
    assert_eq!(buf.data.len(), 4 * buf.width as usize * buf.height as usize);
    assert_eq!(buf.data[3], 255);
}

#[test]
fn quantizers_return_bounded_palettes() {
    // a quantizer that handed its input back unchanged would return one
    // entry per pixel of the 400-wide working buffer
    let bytes = four_block_png();
    let buf = decode_rgba(&bytes).unwrap();
    assert!(kmeans_colors(10, &buf).unwrap().len() <= 10);
    assert!(color_thief_colors(10, &buf).unwrap().len() <= 16);
    assert!(palette_extract_colors(10, &buf).unwrap().len() <= 16);
}

#[test]
fn parse_backend_recognizes_selectors() {
    assert_eq!(parse_backend("kmeans"), Ok(Selector::Strategy(Backend::KMeans)));
    assert_eq!(parse_backend("color_thief"), Ok(Selector::Strategy(Backend::ColorThief)));
    assert_eq!(
        parse_backend("palette_extract"),
        Ok(Selector::Strategy(Backend::PaletteExtract))
    );
    assert_eq!(parse_backend("all"), Ok(Selector::Strategy(Backend::All)));
    assert_eq!(parse_backend("backends"), Ok(Selector::ListBackends));
    assert_eq!(parse_backend(""), Err(PaletteError::UnknownBackendError));
    assert_eq!(parse_backend("kmeanss"), Err(PaletteError::UnknownBackendError));
}

#[test]
fn map_slots_needs_minimum_working_set() {
    let short = vec![(1u8, 2u8, 3u8); 21];
    assert_eq!(map_slots(&short, 0, 0), Err(PaletteError::InvariantViolation));
}

#[test]
fn map_slots_uses_fixed_index_table() {
    // 22 colors whose luma is already ascending, each distinct
    let working: Vec<(u8, u8, u8)> = (0..22u8).map(|i| (10 * i, 10 * i, 10 * i)).collect();
    let palette = map_slots(&working, 0, 0).unwrap();
    assert_eq!(palette.len(), 16);
    let indices = [0usize, 13, 15, 16, 17, 21, 20, 19, 9, 13, 15, 16, 17, 21, 20, 19];
    for (slot, &idx) in indices.iter().enumerate() {
        if slot == 7 || slot == 15 {
            continue;
        }
        let c = working[idx];
        let expected = walrs::color::adjust_rgb_wide(c.0, c.1, c.2, -5, 80);
        assert_eq!(palette[slot], expected, "slot {}", slot);
    }
    // the duplicated positions mirror the low half onto the high half
    for (low, high) in [(1usize, 9usize), (2, 10), (3, 11), (4, 12), (5, 13), (6, 14)] {
        assert_eq!(palette[low], palette[high]);
    }
    // slots 7 and 15 carry the grayscale override of sorted index 20
    let c20 = working[20];
    let g = walrs::color::adjust_rgb_wide(c20.0, c20.1, c20.2, 45, 65);
    let fg = walrs::color::to_gray(g.0, g.1, g.2, 25);
    assert_eq!(palette[7], fg);
    assert_eq!(palette[15], fg);
}

#[test]
fn graded_palette_follows_user_offsets() {
    let working: Vec<(u8, u8, u8)> = (0..22u8).map(|i| (5 * i, 7 * i, 3 * i)).collect();
    let palette = map_slots(&working, 20, -30).unwrap();
    let c = working[0];
    assert_eq!(
        palette[0],
        walrs::color::adjust_rgb_wide(c.0, c.1, c.2, 20 - 5, -30 + 80)
    );
}

#[test]
fn white_buffer_gives_quantization_error_for_palette_extract() {
    // the white-filtering quantizer is left nothing to work with
    let buf = walrs::imaging::PixelBuffer {
        width: 2,
        height: 2,
        data: vec![255u8; 16],
    };
    assert_eq!(
        palette_extract_colors(10, &buf),
        Err(PaletteError::QuantizationError)
    );
}
