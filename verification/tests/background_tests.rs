use disgreet::background::{
    background_cache_path, choose_format, decode_background, pixel_color, Background, CellColor, CACHE_BG_DIR,
};

#[test]
fn cache_path_names_picture_and_size() {
    assert_eq!(CACHE_BG_DIR, "/var/cache/disgreet/");
    assert_eq!(
        background_cache_path("wall.png", 80, 24),
        "/var/cache/disgreet//wall.png_80x24.bin"
    );
    assert_eq!(
        background_cache_path("a b.jpg", 0, 65535),
        format!("{}/{}_{}x{}.bin", CACHE_BG_DIR, "a b.jpg", 0, 65535)
    );
}

#[test]
fn near_white_becomes_palette_white() {
    assert!(pixel_color(231, 231, 231) == CellColor::Indexed(15));
    assert!(pixel_color(255, 255, 255) == CellColor::Indexed(15));
    assert!(pixel_color(230, 255, 255) == CellColor::Rgb(230, 255, 255));
    assert!(pixel_color(12, 34, 56) == CellColor::Rgb(12, 34, 56));
}

#[test]
fn raster_needs_three_bytes_per_pixel() {
    assert!(Background::from_raw(2, 2, vec![0; 12]).is_some());
    assert!(Background::from_raw(2, 2, vec![0; 13]).is_some());
    assert!(Background::from_raw(2, 2, vec![0; 11]).is_none());
    assert!(Background::from_raw(0, 0, vec![]).is_some());
    assert!(Background::from_raw(u32::MAX, u32::MAX, vec![0; 3]).is_none());
}

#[test]
fn pixels_are_read_row_by_row() {
    let raw: Vec<u8> = (0u8..18).collect();
    let bg = Background::from_raw(3, 2, raw.clone()).unwrap();
    assert_eq!(bg.width(), 3);
    assert_eq!(bg.height(), 2);
    assert_eq!(bg.as_raw(), &raw);
    assert_eq!(bg.pixel(0, 0), (0, 1, 2));
    assert_eq!(bg.pixel(2, 0), (6, 7, 8));
    assert_eq!(bg.pixel(1, 1), (12, 13, 14));
    assert!(bg.cell_color(2, 1) == CellColor::Rgb(15, 16, 17));
}

#[test]
fn white_pixel_paints_palette_white() {
    let bg = Background::from_raw(1, 1, vec![240, 250, 235]).unwrap();
    assert!(bg.cell_color(0, 0) == CellColor::Indexed(15));
}

fn png_bytes(w: u32, h: u32, rgb: [u8; 3]) -> Vec<u8> {
    let img = image::RgbImage::from_pixel(w, h, image::Rgb(rgb));
    let mut out = std::io::Cursor::new(Vec::new());
    img.write_to(&mut out, image::ImageFormat::Png).unwrap();
    out.into_inner()
}

#[test]
fn decodes_and_scales_a_picture() {
    let bytes = png_bytes(4, 2, [10, 20, 30]);
    let bg = decode_background(&bytes, "/tmp/any-name", 3, 5).unwrap();
    assert_eq!(bg.width(), 3);
    assert_eq!(bg.height(), 5);
    assert_eq!(bg.as_raw().len(), 3 * 3 * 5);
    assert_eq!(bg.pixel(2, 4), (10, 20, 30));
}

#[test]
fn undecodable_bytes_give_nothing() {
    assert!(decode_background(b"not an image", "/tmp/x.txt", 3, 3).is_none());
    assert!(decode_background(b"not an image", "/tmp/x.png", 3, 3).is_none());
}

fn tga_bytes(w: u32, h: u32, rgb: [u8; 3]) -> Vec<u8> {
    let img = image::RgbImage::from_pixel(w, h, image::Rgb(rgb));
    let mut out = std::io::Cursor::new(Vec::new());
    img.write_to(&mut out, image::ImageFormat::Tga).unwrap();
    out.into_inner()
}

#[test]
fn format_without_signature_comes_from_the_path() {
    let bytes = tga_bytes(2, 2, [200, 100, 50]);
    assert!(image::guess_format(&bytes).is_err());
    let bg = decode_background(&bytes, "/usr/share/backgrounds/wall.tga", 4, 1).unwrap();
    assert_eq!((bg.width(), bg.height()), (4, 1));
    assert_eq!(bg.pixel(3, 0), (200, 100, 50));
    assert!(decode_background(&bytes, "/usr/share/backgrounds/wall.bin", 4, 1).is_none());
}

#[test]
fn signature_wins_over_extension() {
    let bytes = png_bytes(1, 1, [1, 2, 3]);
    let bg = decode_background(&bytes, "/tmp/picture.tga", 2, 2).unwrap();
    assert_eq!(bg.pixel(1, 1), (1, 2, 3));
}

#[test]
fn format_choice_prefers_the_guess() {
    let s = |x: &str| Some(x.to_string());
    assert_eq!(choose_format(s("png"), s("tga")), s("png"));
    assert_eq!(choose_format(None, s("tga")), s("tga"));
    assert_eq!(choose_format(s("jpg"), None), s("jpg"));
    assert_eq!(choose_format(None, None), None);
}

#[test]
fn zero_size_raster_from_a_picture() {
    let bytes = png_bytes(3, 3, [9, 9, 9]);
    let bg = decode_background(&bytes, "/tmp/p.png", 0, 0).unwrap();
    assert_eq!(bg.as_raw().len(), 0);
}

#[test]
fn cell_colours_follow_the_pixels() {
    let mut raw = vec![0u8; 3 * 3 * 2];
    raw[3 * 4..3 * 4 + 3].copy_from_slice(&[240, 240, 240]); // pixel (1, 1)
    raw[3 * 2..3 * 2 + 3].copy_from_slice(&[1, 2, 3]); // pixel (2, 0)
    let bg = Background::from_raw(3, 2, raw).unwrap();
    let colors = bg.cell_colors(3, 2);
    assert_eq!(colors.len(), 2);
    assert_eq!(colors[0].len(), 3);
    assert!(colors[1][1] == CellColor::Indexed(15));
    assert!(colors[0][2] == CellColor::Rgb(1, 2, 3));
    assert!(colors[0][0] == CellColor::Rgb(0, 0, 0));
    let part = bg.cell_colors(2, 1);
    assert_eq!(part.len(), 1);
    assert_eq!(part[0].len(), 2);
}

#[test]
fn decoded_pixels_are_the_scaled_picture() {
    let img = image::RgbImage::from_fn(2, 3, |x, y| image::Rgb([x as u8 * 100, y as u8 * 50, 9]));
    let mut out = std::io::Cursor::new(Vec::new());
    img.write_to(&mut out, image::ImageFormat::Png).unwrap();
    let bytes = out.into_inner();
    let bg = decode_background(&bytes, "/tmp/p.png", 5, 4).unwrap();
    let expected = image::load_from_memory(&bytes)
        .unwrap()
        .resize_exact(5, 4, image::imageops::FilterType::Nearest)
        .to_rgb8()
        .into_raw();
    assert_eq!(bg.as_raw(), &expected);
}

#[test]
fn cached_raster_reads_back_the_same() {
    let bytes = png_bytes(4, 4, [50, 60, 70]);
    let bg = decode_background(&bytes, "/tmp/p.png", 3, 2).unwrap();
    let back = Background::from_raw(bg.width(), bg.height(), bg.as_raw().clone()).unwrap();
    assert_eq!(back.as_raw(), bg.as_raw());
    assert_eq!((back.width(), back.height()), (3, 2));
}
