//! The colors of the waveform, taken from the album cover by a median cut.
//!
//! Colors are kept as the four bytes that the user interface stores for a
//! color: red, green and blue multiplied by alpha, then alpha.

use vstd::prelude::*;
use iris_lib::color_bucket::ColorBucket;

verus! {

/// A color as four bytes.
#[derive(Clone, Copy, Debug, PartialEq, Eq, Structural)]
pub struct Rgba {
    pub r: u8,
    pub g: u8,
    pub b: u8,
    pub a: u8,
}

/// The four bytes of a color, in order.
pub open spec fn rgba_bytes(c: Rgba) -> (u8, u8, u8, u8) {
    (c.r, c.g, c.b, c.a)
}

/// The color with the four bytes `t`.
pub open spec fn rgba_of(t: (u8, u8, u8, u8)) -> Rgba {
    Rgba { r: t.0, g: t.1, b: t.2, a: t.3 }
}

/// The bytes of each color of `s`, in order.
pub open spec fn colors_bytes(s: Seq<Rgba>) -> Seq<(u8, u8, u8, u8)> {
    s.map_values(|c: Rgba| rgba_bytes(c))
}

#[verifier::external_type_specification]
#[verifier::external_body]
pub struct ExColorBucket(ColorBucket);

/// The colors that a median-cut bucket holds, in its order.
pub uninterp spec fn bucket_colors(bucket: ColorBucket) -> Seq<(u8, u8, u8, u8)>;

/// The palette that the median cut of `colors` gives after `iterations`
/// rounds of splitting.
pub uninterp spec fn median_cut_palette(colors: Seq<(u8, u8, u8, u8)>, iterations: u8) -> Seq<(u8, u8, u8, u8)>;

/// The stored bytes of the user-interface color made from the unmultiplied
/// color `(r, g, b, a)` at run time.
pub uninterp spec fn ui_color_from_unmultiplied(r: u8, g: u8, b: u8, a: u8) -> (u8, u8, u8, u8);

/// The stored bytes of the user-interface color made from the unmultiplied
/// color `(r, g, b, a)` by the constant-context conversion.
pub uninterp spec fn ui_color_from_unmultiplied_const(r: u8, g: u8, b: u8, a: u8) -> (u8, u8, u8, u8);

/// `iris_lib::color_bucket::ColorBucket::from_pixels`: no bucket for no
/// pixels, else a bucket that holds the pixels as given.
#[verifier::external_body]
fn bucket_from_pixels(pixels: Vec<Rgba>) -> (res: Option<ColorBucket>)
    ensures
        res is None <==> pixels@.len() == 0,
        res matches Some(b) ==> bucket_colors(b) == colors_bytes(pixels@),
{
    ColorBucket::from_pixels(
        pixels.into_iter().map(|c| iris_lib::color::Color { r: c.r, g: c.g, b: c.b, a: c.a }).collect(),
    )
}

/// `iris_lib::color_bucket::ColorBucket::make_palette`: the median-cut
/// palette of the bucket's colors. The bucket sorts its own colors while it
/// works, so afterwards it holds the same colors, possibly in another order.
#[verifier::external_body]
fn bucket_make_palette(bucket: &mut ColorBucket, iterations: u8) -> (res: Vec<Rgba>)
    requires
        bucket_colors(*old(bucket)).len() > 0,
    ensures
        colors_bytes(res@) == median_cut_palette(bucket_colors(*old(bucket)), iterations),
        bucket_colors(*final(bucket)).to_multiset() == bucket_colors(*old(bucket)).to_multiset(),
{
    bucket.make_palette(iterations).into_iter().map(|c| Rgba { r: c.r, g: c.g, b: c.b, a: c.a }).collect()
}

/// `egui::Color32::from_rgba_unmultiplied`: transparent black for alpha 0,
/// the color as given for alpha 255, and in between the channels multiplied
/// by alpha; alpha itself is kept.
#[verifier::external_body]
fn ui_color(c: Rgba) -> (res: Rgba)
    ensures
        rgba_bytes(res) == ui_color_from_unmultiplied(c.r, c.g, c.b, c.a),
        c.a == 0 ==> res == (Rgba { r: 0, g: 0, b: 0, a: 0 }),
        c.a == 255 ==> res == c,
        res.a == c.a,
{
    let [r, g, b, a] = egui::Color32::from_rgba_unmultiplied(c.r, c.g, c.b, c.a).to_array();
    Rgba { r, g, b, a }
}

/// `egui::Color32::from_rgba_unmultiplied_const`: the same conversion as
/// `ui_color`, computed without a lookup table.
#[verifier::external_body]
fn ui_color_const(c: Rgba) -> (res: Rgba)
    ensures
        rgba_bytes(res) == ui_color_from_unmultiplied_const(c.r, c.g, c.b, c.a),
        c.a == 0 ==> res == (Rgba { r: 0, g: 0, b: 0, a: 0 }),
        c.a == 255 ==> res == c,
        res.a == c.a,
{
    let [r, g, b, a] = egui::Color32::from_rgba_unmultiplied_const(c.r, c.g, c.b, c.a).to_array();
    Rgba { r, g, b, a }
}

/// The stored color of the unmultiplied color `c`.
pub open spec fn ui_color_spec(c: (u8, u8, u8, u8)) -> Rgba {
    rgba_of(ui_color_from_unmultiplied(c.0, c.1, c.2, c.3))
}

/// What is known of the stored color `res` made from the unmultiplied color
/// `c`: it is the conversion's result, alpha is kept, an opaque color is
/// kept as it is and a fully transparent one becomes transparent black.
pub open spec fn ui_color_facts(c: (u8, u8, u8, u8), res: Rgba) -> bool {
    &&& res == ui_color_spec(c)
    &&& res.a == c.3
    &&& c.3 == 255 ==> res == rgba_of(c)
    &&& c.3 == 0 ==> res == (Rgba { r: 0, g: 0, b: 0, a: 0 })
}

/// What is known of each slot of the palette `res` made from the median-cut
/// colors `p`.
pub open spec fn palette_facts(p: Seq<(u8, u8, u8, u8)>, res: Palette) -> bool {
    &&& ui_color_facts(palette_entry(p, 0), res.fg_a)
    &&& ui_color_facts(palette_entry(p, 1), res.fg_b)
    &&& ui_color_facts(palette_entry(p, 2), res.bg_a)
    &&& ui_color_facts(palette_entry(p, 3), res.bg_b)
}

/// Opaque black, the color that stands in for an empty palette.
pub open spec fn palette_fallback() -> (u8, u8, u8, u8) {
    (0, 0, 0, 255)
}

/// The palette color used for slot `idx`: the palette's color at `idx`
/// where it has one, else its first color, else opaque black.
pub open spec fn palette_entry(p: Seq<(u8, u8, u8, u8)>, idx: int) -> (u8, u8, u8, u8) {
    if 0 <= idx < p.len() {
        p[idx]
    } else if p.len() > 0 {
        p[0]
    } else {
        palette_fallback()
    }
}

/// The four colors of the waveform: two for the foreground gradient, two
/// for the background one.
#[derive(Clone, Copy, Debug, PartialEq, Eq, Structural)]
pub struct Palette {
    pub fg_a: Rgba,
    pub fg_b: Rgba,
    pub bg_a: Rgba,
    pub bg_b: Rgba,
}

/// The waveform palette made of the median-cut colors `p`.
pub open spec fn palette_of(p: Seq<(u8, u8, u8, u8)>) -> Palette {
    Palette {
        fg_a: ui_color_spec(palette_entry(p, 0)),
        fg_b: ui_color_spec(palette_entry(p, 1)),
        bg_a: ui_color_spec(palette_entry(p, 2)),
        bg_b: ui_color_spec(palette_entry(p, 3)),
    }
}

/// Number of median-cut rounds: up to four colors.
pub const PALETTE_ITERATIONS: u8 = 2;

/// The palette color for slot `idx` of the median-cut colors `colors`.
fn palette_color(colors: &Vec<Rgba>, idx: usize) -> (res: Rgba)
    ensures
        rgba_bytes(res) == palette_entry(colors_bytes(colors@), idx as int),
{
    if idx < colors.len() {
        colors[idx]
    } else if colors.len() > 0 {
        colors[0]
    } else {
        Rgba { r: 0, g: 0, b: 0, a: 255 }
    }
}

/// Makes the waveform palette from the median-cut colors of a cover: the
/// first two colors for the foreground, the next two for the background,
/// each missing one replaced by the first color (or black if there is none).
pub fn palette_from_colors(colors: &Vec<Rgba>) -> (res: Palette)
    ensures
        res == palette_of(colors_bytes(colors@)),
        palette_facts(colors_bytes(colors@), res),
{
    let fg_a = ui_color(palette_color(colors, 0));
    let fg_b = ui_color(palette_color(colors, 1));
    let bg_a = ui_color(palette_color(colors, 2));
    let bg_b = ui_color(palette_color(colors, 3));
    Palette { fg_a, fg_b, bg_a, bg_b }
}

/// The waveform palette of a cover image, given by its pixels.
pub fn identify_colors_in(pixels: &[Rgba]) -> (res: Palette)
    requires
        pixels@.len() > 0,
    ensures
        res == palette_of(median_cut_palette(colors_bytes(pixels@), PALETTE_ITERATIONS)),
        palette_facts(median_cut_palette(colors_bytes(pixels@), PALETTE_ITERATIONS), res),
{
    let mut owned: Vec<Rgba> = Vec::new();
    let mut i: usize = 0;
    while i < pixels.len()
        invariant
            i <= pixels@.len(),
            owned@ == pixels@.subrange(0, i as int),
        decreases pixels@.len() - i,
    {
        owned.push(pixels[i]);
        i = i + 1;
    }
    assert(owned@ =~= pixels@);
    match bucket_from_pixels(owned) {
        Some(mut bucket) => {
            let colors = bucket_make_palette(&mut bucket, PALETTE_ITERATIONS);
            palette_from_colors(&colors)
        },
        None => {
            // `bucket_from_pixels` gives a bucket for every non-empty image.
            proof {
                assert(false);
            }
            default()
        },
    }
}

/// The color of the waveform's foreground when there is no cover.
pub fn fg_default() -> (res: Rgba)
    ensures
        res == (Rgba { r: 143, g: 143, b: 143, a: 255 }),
{
    ui_color_const(Rgba { r: 143, g: 143, b: 143, a: 255 })
}

/// The color of the waveform's background when there is no cover.
pub fn bg_default() -> (res: Rgba)
    ensures
        res == (Rgba { r: 230, g: 230, b: 230, a: 255 }),
{
    ui_color_const(Rgba { r: 230, g: 230, b: 230, a: 255 })
}

/// The palette used when there is no cover.
pub open spec fn default_palette() -> Palette {
    Palette {
        fg_a: Rgba { r: 143, g: 143, b: 143, a: 255 },
        fg_b: Rgba { r: 143, g: 143, b: 143, a: 255 },
        bg_a: Rgba { r: 230, g: 230, b: 230, a: 255 },
        bg_b: Rgba { r: 230, g: 230, b: 230, a: 255 },
    }
}

/// The palette of a cover, or the default palette when there is none.
pub fn identify_colors(image: Option<&[Rgba]>) -> (res: Palette)
    requires
        image matches Some(p) ==> p@.len() > 0,
    ensures
        image matches Some(p) ==> res == palette_of(
            median_cut_palette(colors_bytes(p@), PALETTE_ITERATIONS),
        ),
        image is None ==> res == default_palette(),
{
    if let Some(img) = image {
        return identify_colors_in(img);
    }
    Palette { fg_a: fg_default(), fg_b: fg_default(), bg_a: bg_default(), bg_b: bg_default() }
}

/// The palette used when there is no cover.
pub fn default() -> (res: Palette)
    ensures
        res == default_palette(),
{
    Palette { fg_a: fg_default(), fg_b: fg_default(), bg_a: bg_default(), bg_b: bg_default() }
}

/// The stored colors of the pixels of an unmultiplied RGBA byte buffer,
/// four bytes per pixel, each made by the run-time conversion.
pub open spec fn stored_colors(rgba: Seq<u8>) -> Seq<(u8, u8, u8, u8)> {
    Seq::new(
        rgba.len() / 4,
        |i: int|
            ui_color_from_unmultiplied(rgba[4 * i], rgba[4 * i + 1], rgba[4 * i + 2], rgba[4 * i + 3]),
    )
}

/// The waveform palette of a decoded cover of `size[0]` by `size[1]` pixels
/// given as unmultiplied RGBA bytes: the pixels are made stored colors, then
/// split by the median cut.
pub fn cover_palette(size: [usize; 2], rgba: &[u8]) -> (res: Palette)
    requires
        rgba@.len() == 4 * size[0] * size[1],
        size[0] * size[1] > 0,
    ensures
        res == palette_of(median_cut_palette(stored_colors(rgba@), PALETTE_ITERATIONS)),
        palette_facts(median_cut_palette(stored_colors(rgba@), PALETTE_ITERATIONS), res),
{
    let w = size[0];
    let h = size[1];
    assert(rgba@.len() == 4 * (w * h) && w * h > 0 && rgba@.len() / 4 == w * h) by (nonlinear_arith)
        requires
            rgba@.len() == 4 * w * h,
            w * h > 0,
    ;
    let n = rgba.len() / 4;
    let mut pixels: Vec<Rgba> = Vec::new();
    let mut i: usize = 0;
    while i < n
        invariant
            n == rgba@.len() / 4,
            rgba@.len() == 4 * n,
            rgba@.len() <= usize::MAX,
            i <= n,
            colors_bytes(pixels@) == stored_colors(rgba@).take(i as int),
        decreases n - i,
    {
        let c = ui_color(Rgba { r: rgba[4 * i], g: rgba[4 * i + 1], b: rgba[4 * i + 2], a: rgba[4 * i + 3] });
        let ghost prev = pixels@;
        pixels.push(c);
        assert(colors_bytes(pixels@) =~= colors_bytes(prev).push(rgba_bytes(c)));
        assert(stored_colors(rgba@).take(i + 1) =~= stored_colors(rgba@).take(i as int).push(
            stored_colors(rgba@)[i as int],
        ));
        i = i + 1;
    }
    assert(stored_colors(rgba@).take(n as int) =~= stored_colors(rgba@));
    assert(pixels@.len() == n);
    identify_colors_in(pixels.as_slice())
}

/// Slot `k` (0 to 3: `fg_a`, `fg_b`, `bg_a`, `bg_b`) of a palette.
pub open spec fn palette_slot(p: Palette, k: int) -> Rgba {
    if k == 0 {
        p.fg_a
    } else if k == 1 {
        p.fg_b
    } else if k == 2 {
        p.bg_a
    } else {
        p.bg_b
    }
}

/// Each slot that the median cut fills takes its own color: slot `k` of the
/// palette of `p` is made from `p[k]` whenever `p` has that many colors;
/// every other slot is made from the first color, or from opaque black when
/// there is none.
pub proof fn law_palette_slot_colors(p: Seq<(u8, u8, u8, u8)>, k: int)
    requires
        0 <= k < 4,
    ensures
        k < p.len() ==> palette_slot(palette_of(p), k) == ui_color_spec(p[k]),
        p.len() <= k && p.len() > 0 ==> palette_slot(palette_of(p), k) == ui_color_spec(p[0]),
        p.len() == 0 ==> palette_slot(palette_of(p), k) == ui_color_spec((0u8, 0u8, 0u8, 255u8)),
{
}

/// How the four slots of the waveform palette are filled: with four or
/// more median-cut colors, by the first four in order; with fewer, the
/// missing slots repeat the first color, so one color fills every slot; with
/// none, every slot holds the same color, made from opaque black.
pub proof fn law_palette_slots(p: Seq<(u8, u8, u8, u8)>)
    ensures
        p.len() >= 4 ==> palette_of(p) == (Palette {
            fg_a: ui_color_spec(p[0]),
            fg_b: ui_color_spec(p[1]),
            bg_a: ui_color_spec(p[2]),
            bg_b: ui_color_spec(p[3]),
        }),
        1 <= p.len() < 4 ==> palette_of(p).fg_a == ui_color_spec(p[0]) && (p.len() < 2 ==> palette_of(
            p,
        ).fg_b == ui_color_spec(p[0])) && (p.len() < 3 ==> palette_of(p).bg_a == ui_color_spec(p[0]))
            && palette_of(p).bg_b == ui_color_spec(p[0]),
        p.len() == 0 ==> palette_of(p).fg_a == ui_color_spec(palette_fallback()) && palette_of(p).fg_b
            == palette_of(p).fg_a && palette_of(p).bg_a == palette_of(p).fg_a && palette_of(p).bg_b
            == palette_of(p).fg_a,
{
}

} // verus!
