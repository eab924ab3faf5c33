use glassbox::cover::album_cover;
use glassbox::palette::{cover_palette, Rgba};

fn png_bytes(width: u32, height: u32, rgba: Vec<u8>) -> Vec<u8> {
    let img = image::RgbaImage::from_raw(width, height, rgba).unwrap();
    let mut out = std::io::Cursor::new(Vec::new());
    img.write_to(&mut out, image::ImageFormat::Png).unwrap();
    out.into_inner()
}

#[test]
fn first_decodable_cover_wins() {
    let good = png_bytes(2, 1, vec![10, 20, 30, 255, 10, 20, 30, 255]);
    let candidates = vec![
        ("png".to_string(), None),
        ("png".to_string(), Some(vec![1u8, 2, 3])),
        ("txt".to_string(), Some(good.clone())),
        ("png".to_string(), Some(good)),
    ];
    let (size, rgba, palette) = album_cover(&candidates).unwrap();
    assert_eq!(size, [2, 1]);
    assert_eq!(rgba, vec![10, 20, 30, 255, 10, 20, 30, 255]);
    let palette = palette.unwrap();
    assert_eq!(palette.fg_a, Rgba { r: 10, g: 20, b: 30, a: 255 });
    assert_eq!(palette, cover_palette([2, 1], &rgba));
}

#[test]
fn no_cover_when_nothing_decodes() {
    let candidates = vec![("png".to_string(), None), ("jpg".to_string(), Some(vec![0u8; 16]))];
    assert!(album_cover(&candidates).is_none());
    assert!(album_cover(&vec![]).is_none());
}

#[test]
fn extension_is_matched_without_case() {
    let good = png_bytes(1, 1, vec![1, 2, 3, 255]);
    let (size, _, palette) = album_cover(&vec![("PNG".to_string(), Some(good))]).unwrap();
    assert_eq!(size, [1, 1]);
    assert_eq!(palette.unwrap().bg_b, Rgba { r: 1, g: 2, b: 3, a: 255 });
}
