use glassbox::palette::{
    bg_default, fg_default, identify_colors, identify_colors_in, palette_from_colors,
    Palette, Rgba,
};

fn rgba(r: u8, g: u8, b: u8, a: u8) -> Rgba {
    Rgba { r, g, b, a }
}

#[test]
fn defaults_are_grays() {
    assert_eq!(fg_default(), rgba(143, 143, 143, 255));
    assert_eq!(bg_default(), rgba(230, 230, 230, 255));
    let p = glassbox::palette::default();
    assert_eq!(p.fg_a, fg_default());
    assert_eq!(p.fg_b, fg_default());
    assert_eq!(p.bg_a, bg_default());
    assert_eq!(p.bg_b, bg_default());
}

#[test]
fn no_cover_gives_default_palette() {
    assert_eq!(identify_colors(None), glassbox::palette::default());
}

#[test]
fn cover_median_cut_palette() {
    let pixels = [rgba(100, 120, 120, 255), rgba(150, 150, 150, 255), rgba(255, 255, 255, 255)];
    let p = identify_colors_in(&pixels);
    assert_eq!(
        p,
        Palette {
            fg_a: rgba(255, 255, 255, 255),
            fg_b: rgba(150, 150, 150, 255),
            bg_a: rgba(100, 120, 120, 255),
            bg_b: rgba(255, 255, 255, 255),
        }
    );
    assert_eq!(identify_colors(Some(&pixels)), p);
}

#[test]
fn single_color_cover_fills_every_slot() {
    let pixels = [rgba(10, 20, 30, 255); 5];
    let p = identify_colors_in(&pixels);
    assert_eq!(p.fg_a, rgba(10, 20, 30, 255));
    assert_eq!(p.fg_b, p.fg_a);
    assert_eq!(p.bg_a, p.fg_a);
    assert_eq!(p.bg_b, p.fg_a);
}

#[test]
fn four_colors_fill_slots_in_order() {
    let colors = vec![rgba(1, 1, 1, 255), rgba(2, 2, 2, 255), rgba(3, 3, 3, 255), rgba(4, 4, 4, 255), rgba(5, 5, 5, 255)];
    let p = palette_from_colors(&colors);
    assert_eq!(p.fg_a, rgba(1, 1, 1, 255));
    assert_eq!(p.fg_b, rgba(2, 2, 2, 255));
    assert_eq!(p.bg_a, rgba(3, 3, 3, 255));
    assert_eq!(p.bg_b, rgba(4, 4, 4, 255));
}

#[test]
fn empty_palette_is_opaque_black() {
    let p = palette_from_colors(&vec![]);
    assert_eq!(p.fg_a, rgba(0, 0, 0, 255));
    assert_eq!(p.fg_b, p.fg_a);
    assert_eq!(p.bg_a, p.fg_a);
    assert_eq!(p.bg_b, p.fg_a);
}

#[test]
fn translucent_colors_are_premultiplied() {
    let p = palette_from_colors(&vec![rgba(200, 100, 50, 128)]);
    assert_eq!(p.fg_a, rgba(100, 50, 25, 128));
}

#[test]
fn transparent_colors_become_transparent_black() {
    let p = palette_from_colors(&vec![rgba(200, 100, 50, 0)]);
    assert_eq!(p.fg_a, rgba(0, 0, 0, 0));
}

#[test]
fn opaque_cover_bytes_give_their_color() {
    let bytes = [10u8, 20, 30, 255, 10, 20, 30, 255];
    let p = glassbox::palette::cover_palette([2, 1], &bytes);
    assert_eq!(p.fg_a, rgba(10, 20, 30, 255));
    assert_eq!(p.fg_b, p.fg_a);
    assert_eq!(p.bg_a, p.fg_a);
    assert_eq!(p.bg_b, p.fg_a);
}

#[test]
fn translucent_cover_bytes_are_premultiplied_on_reading() {
    let bytes = [200u8, 100, 50, 128];
    let p = glassbox::palette::cover_palette([1, 1], &bytes);
    // Stored as (100, 50, 25, 128), then converted once more for the palette.
    assert_eq!(p.fg_a, rgba(50, 25, 13, 128));
}
